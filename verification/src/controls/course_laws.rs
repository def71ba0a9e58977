//! What is sent to the camera for settings, byte by byte, and what is answered
//! when a setting cannot be applied.

use crate::controls::apply::{
    begin_spec, proceed_spec, report, requested, setting_ok, zeros, ApplyView, JobView, StepView,
};
use crate::controls::laws::{after, lemma_requested_ok, lemma_standing, request_after};
use crate::controls::transfer::{
    request_failure_text, setup_spec, supported_spec, vc_or_fail_spec, TransferView,
};
use crate::text::{dec_int, hex_byte};
use crate::uvc::descriptor::VcInfo;
use crate::uvc::setting::{parse_setting_spec, Setting};
use crate::uvc::table::{law_other_parameters, other_params, ControlDef, Unit};
use crate::uvc::value::{auto_ae_mode_spec, decode_spec, display_spec, encode_spec};
use vstd::prelude::*;

verus! {

/// A control is supported where the camera has the unit and the bit of the
/// control is set in the unit's bitmap.
pub proof fn law_supported_controls(vc: VcInfo, unit: Unit, bit: u8)
    requires
        bit < 32,
    ensures
        unit == Unit::CameraTerminal ==> supported_spec(vc, unit, bit) == (
        match vc.camera_terminal {
            Some(e) => if (e.controls >> bit) % 2 == 1 {
                Some(e)
            } else {
                None
            },
            None => None,
        }),
        unit == Unit::ProcessingUnit ==> supported_spec(vc, unit, bit) == (
        match vc.processing_unit {
            Some(e) => if (e.controls >> bit) % 2 == 1 {
                Some(e)
            } else {
                None
            },
            None => None,
        }),
{
    let b = bit as u32;
    if let Some(e) = vc.camera_terminal {
        let c = e.controls;
        assert(b < 32 ==> (c & (1u32 << b) != 0) == ((c >> b) % 2 == 1)) by (bit_vector);
        assert(1u32 << bit == 1u32 << b);
        assert(c >> bit == c >> b);
    }
    if let Some(e) = vc.processing_unit {
        let c = e.controls;
        assert(b < 32 ==> (c & (1u32 << b) != 0) == ((c >> b) % 2 == 1)) by (bit_vector);
        assert(1u32 << bit == 1u32 << b);
        assert(c >> bit == c >> b);
    }
}

/// The packet of a transfer: requests that set a value go out, all others come
/// in; the selector is the high byte of wValue, the unit and the interface are
/// the bytes of wIndex.
pub proof fn law_setup_packet(t: TransferView, interface: u8)
    ensures
        ({
            let p = setup_spec(t, interface);
            &&& p.request_type == (if t.request == 0x01 {
                0x21u8
            } else {
                0xa1u8
            })
            &&& p.request == t.request
            &&& p.w_value == 256 * t.selector
            &&& p.w_index == 256 * t.unit + interface
            &&& t.data.len() <= 65535 ==> p.length == t.data.len()
        }),
{
}

/// The message on a transfer that the driver refused.
pub proof fn law_request_failure_text(t: TransferView, rc: int)
    ensures
        request_failure_text(t, rc) == "request "@ + hex_byte(t.request) + " selector "@ + hex_byte(
            t.selector,
        ) + " unit "@ + dec_int(t.unit as int) + ": esp_err "@ + dec_int(rc),
{
}

/// Settings need an attached camera with a VideoControl interface; a request
/// without settings needs nothing and does nothing, and one that cannot be read
/// fails with 400, camera or not.
pub proof fn law_settings_need_an_interface(
    params: Seq<(Seq<char>, Seq<char>)>,
    attached: bool,
    vc: Option<VcInfo>,
)
    ensures
        vc_or_fail_spec(attached, vc) == (if !attached {
            Err((503u16, "no camera attached"@))
        } else if vc is None {
            Err((503u16, "camera has no VideoControl interface"@))
        } else {
            Ok(vc->0)
        }),
        requested(params) matches Ok(settings) ==> settings.len() > 0 && !(attached && vc is Some)
            ==> begin_spec(params, attached, vc) == ApplyView::Failed(
            503,
            if !attached {
                "no camera attached"@
            } else {
                "camera has no VideoControl interface"@
            },
        ),
        requested(params) matches Ok(settings) ==> settings.len() == 0 ==> begin_spec(
            params,
            attached,
            vc,
        ) == ApplyView::Finished(Seq::empty()),
        requested(params) matches Err(e) ==> begin_spec(params, attached, vc) == ApplyView::Failed(
            400,
            e,
        ),
{
}

/// The parameters that ask for settings: all but `t` and `_`.
pub open spec fn asking(params: Seq<(Seq<char>, Seq<char>)>) -> Seq<(Seq<char>, Seq<char>)>
    decreases params.len(),
{
    if params.len() == 0 {
        Seq::empty()
    } else if params.last().0 == "t"@ || params.last().0 == "_"@ {
        asking(params.drop_last())
    } else {
        asking(params.drop_last()).push(params.last())
    }
}

/// Every parameter but `t` and `_` is one setting, in the order of the
/// parameters, and each is what that parameter asks for by itself, whatever its
/// value. They are accepted exactly where each of them is; the first that is
/// not is the one that is complained of.
pub proof fn law_every_parameter_is_a_setting(params: Seq<(Seq<char>, Seq<char>)>)
    ensures
        ({
            let asked = asking(params);
            &&& requested(params) is Ok <==> forall|k: int|
                0 <= k < asked.len() ==> parse_setting_spec(
                    (#[trigger] asked[k]).0,
                    asked[k].1,
                ) is Ok
            &&& requested(params) matches Ok(settings) ==> settings.len() == asked.len() && forall|
                k: int,
            |
                0 <= k < asked.len() ==> parse_setting_spec((#[trigger] asked[k]).0, asked[k].1)
                    == Ok::<(ControlDef, Setting), Seq<char>>(settings[k])
            &&& requested(params) matches Err(e) ==> exists|k: int|
                0 <= k < asked.len() && parse_setting_spec((#[trigger] asked[k]).0, asked[k].1)
                    == Err::<(ControlDef, Setting), Seq<char>>(e) && forall|j: int|
                    0 <= j < k ==> parse_setting_spec((#[trigger] asked[j]).0, asked[j].1) is Ok
        }),
    decreases params.len(),
{
    if params.len() > 0 {
        let init = params.drop_last();
        let p = params.last();
        law_every_parameter_is_a_setting(init);
        law_other_parameters(p.0);
        let before = asking(init);
        let asked = asking(params);
        if !other_params().contains(p.0) {
            assert(asked == before.push(p));
            let n = before.len() as int;
            assert(asked[n] == p);
            assert(forall|k: int| 0 <= k < n ==> asked[k] == before[k]);
            match requested(init) {
                Err(e) => {
                    let k = choose|k: int|
                        0 <= k < before.len() && parse_setting_spec(
                            (#[trigger] before[k]).0,
                            before[k].1,
                        ) == Err::<(ControlDef, Setting), Seq<char>>(e) && forall|j: int|
                            0 <= j < k ==> parse_setting_spec(
                                (#[trigger] before[j]).0,
                                before[j].1,
                            ) is Ok;
                    assert(asked[k] == before[k]);
                    assert forall|j: int| 0 <= j < k implies parse_setting_spec(
                        (#[trigger] asked[j]).0,
                        asked[j].1,
                    ) is Ok by {
                        assert(asked[j] == before[j]);
                    }
                },
                Ok(settings) => {
                    assert forall|k: int| 0 <= k < n implies parse_setting_spec(
                        (#[trigger] asked[k]).0,
                        asked[k].1,
                    ) == Ok::<(ControlDef, Setting), Seq<char>>(settings[k]) by {
                        assert(asked[k] == before[k]);
                    }
                },
            }
        } else {
            assert(asked == before);
        }
    }
}

/// Whether the camera has an automatic mode for a control.
pub open spec fn has_companion(vc: VcInfo, def: ControlDef) -> bool {
    def.auto is Some && supported_spec(vc, def.unit, (def.auto->0).bit) is Some
}

/// What is sent for an automatic mode: it is switched on with 1, or for the
/// exposure with a mode that the camera has been asked for.
pub proof fn law_automatic_transfers(
    vc: VcInfo,
    def: ControlDef,
    replies: Seq<Result<Seq<u8>, Seq<char>>>,
)
    requires
        setting_ok(def, Setting::Auto),
    ensures
        after(vc, def, Setting::Auto, replies) matches StepView::Send(_, t) ==> {
            let auto = def.auto->0;
            let n = replies.len();
            &&& supported_spec(vc, def.unit, def.bit) matches Some(e) && t.unit == e.id
            &&& has_companion(vc, def)
            &&& t.selector == auto.selector
            &&& t.data.len() == 1
            &&& auto.kind is Flag ==> n == 0 && t.request == 0x01 && t.data[0] == 1
            &&& auto.kind is AeMode ==> n == 0 && t.request == 0x84 || {
                &&& n == 1
                &&& t.request == 0x01
                &&& replies[0] matches Ok(modes)
                &&& auto_ae_mode_spec(modes[0]) == Some(t.data[0])
            }
        },
{
    lemma_standing(vc, def, Setting::Auto, replies);
    if replies.len() > 0 {
        lemma_standing(vc, def, Setting::Auto, replies.drop_last());
    }
}

/// What is sent for a value: first the automatic mode, where there is one, is
/// switched off (0, or mode 1 for the exposure), then the smallest and the
/// largest value are asked for, then the data that is shared with another
/// value, and last the value is written.
pub proof fn law_value_transfers(
    vc: VcInfo,
    def: ControlDef,
    v: i64,
    replies: Seq<Result<Seq<u8>, Seq<char>>>,
)
    requires
        setting_ok(def, Setting::Value(v)),
    ensures
        after(vc, def, Setting::Value(v), replies) matches StepView::Send(_, t) ==> {
            let first: int = if has_companion(vc, def) {
                1
            } else {
                0
            };
            let n = replies.len() as int;
            &&& supported_spec(vc, def.unit, def.bit) matches Some(e) && t.unit == e.id
            &&& n < first ==> t.request == 0x01 && t.selector == (def.auto->0).selector && t.data
                == seq![
                if (def.auto->0).kind is Flag {
                    0u8
                } else {
                    1u8
                },
            ]
            &&& n >= first ==> t.selector == def.selector
            &&& n == first ==> t.request == 0x82 && t.data.len() == def.total
            &&& n == first + 1 ==> t.request == 0x83 && t.data.len() == def.total
            &&& n == first + 2 && def.total != def.len ==> t.request == 0x81 && t.data.len()
                == def.total
            &&& n == first + 2 && def.total == def.len ==> t.request == 0x01 && t.data
                == encode_spec(def, v as int, zeros(def.total as nat))
            &&& n == first + 3 ==> def.total != def.len && t.request == 0x01 && (
            replies.last() matches Ok(current) && t.data == encode_spec(def, v as int, current))
            &&& n <= first + 3
        },
{
    lemma_standing(vc, def, Setting::Value(v), replies);
    if replies.len() > 0 {
        lemma_standing(vc, def, Setting::Value(v), replies.drop_last());
    }
}

/// Why a setting is refused before anything is sent.
pub proof fn law_refused_at_once(vc: VcInfo, def: ControlDef, setting: Setting)
    requires
        setting_ok(def, setting),
    ensures
        ({
            let start = after(vc, def, setting, Seq::empty());
            &&& supported_spec(vc, def.unit, def.bit) is None ==> start == StepView::Fail(
                400,
                def.name@ + " is not supported by this camera"@,
            )
            &&& supported_spec(vc, def.unit, def.bit) is Some && setting is Auto && !has_companion(
                vc,
                def,
            ) ==> start == StepView::Fail(400, def.name@ + " has no automatic mode on this camera"@)
            &&& supported_spec(vc, def.unit, def.bit) is Some && (setting is Value
                || has_companion(vc, def)) ==> start is Send
        }),
{
}

/// What a reply leads to. A refused transfer ends the setting, but for the one
/// that leaves the automatic mode; a value outside the range that the camera
/// tells is refused, and one inside is not; the last transfer ends the setting
/// well.
pub proof fn law_replies(
    vc: VcInfo,
    def: ControlDef,
    setting: Setting,
    replies: Seq<Result<Seq<u8>, Seq<char>>>,
    reply: Result<Seq<u8>, Seq<char>>,
)
    requires
        setting_ok(def, setting),
        after(vc, def, setting, replies) is Send,
    ensures
        ({
            let next = after(vc, def, setting, replies.push(reply));
            let first: int = if has_companion(vc, def) {
                1
            } else {
                0
            };
            let n = replies.len() as int;
            let leaving = setting is Value && n < first;
            let last = match setting {
                Setting::Value(_) => first + 2 + (if def.total != def.len {
                    1int
                } else {
                    0
                }),
                Setting::Auto => if (def.auto->0).kind is AeMode {
                    1
                } else {
                    0
                },
            };
            &&& leaving ==> next is Send
            &&& !leaving ==> (reply matches Err(e) ==> next == StepView::Fail(
                500,
                "camera rejected "@ + def.name@ + ": "@ + e,
            ))
            &&& setting matches Setting::Value(v) ==> reply matches Ok(data) ==> n == first ==> (
            match decode_spec(def, data) {
                Some(_) => next is Send,
                None => next == StepView::Fail(
                    500,
                    "camera rejected "@ + def.name@ + ": short reply"@,
                ),
            })
            &&& setting matches Setting::Value(v) ==> reply matches Ok(data) ==> n == first + 1
                ==> (match decode_spec(def, data) {
                Some(max) => {
                    &&& replies[first] matches Ok(low)
                    &&& decode_spec(def, low) matches Some(min)
                    &&& if min <= v <= max {
                        next is Send
                    } else {
                        next == StepView::Fail(
                            400,
                            def.name@ + "="@ + dec_int(display_spec(def, v) as int)
                                + " is out of range; this camera accepts "@ + dec_int(
                                display_spec(def, min) as int,
                            ) + ".."@ + dec_int(display_spec(def, max) as int),
                        )
                    }
                },
                None => next == StepView::Fail(
                    500,
                    "camera rejected "@ + def.name@ + ": short reply"@,
                ),
            })
            &&& setting is Auto && n < last ==> (reply matches Ok(data) ==> data.len() == 0
                ==> next == StepView::Fail(500, "camera rejected "@ + def.name@ + ": short reply"@))
            &&& setting is Auto && n < last ==> (reply matches Ok(data) ==> data.len() > 0 ==> (
            match auto_ae_mode_spec(data[0]) {
                Some(_) => next is Send,
                None => next == StepView::Fail(
                    400,
                    "this camera has no automatic exposure mode"@,
                ),
            }))
            &&& n == last && reply is Ok ==> next == StepView::Done(
                match setting {
                    Setting::Auto => def.name@ + "=auto"@,
                    Setting::Value(v) => def.name@ + "="@ + dec_int(display_spec(def, v) as int),
                },
            )
            &&& setting is Value && n == last - 1 && def.total != def.len ==> (
            reply matches Ok(data) ==> if data.len() >= def.offset + def.len {
                next is Send
            } else {
                next == StepView::Fail(500, "camera rejected "@ + def.name@ + ": short reply"@)
            })
            &&& next is Done ==> n == last && reply is Ok
        }),
{
    let more = replies.push(reply);
    lemma_standing(vc, def, setting, replies);
    lemma_standing(vc, def, setting, more);
    assert(more.drop_last() =~= replies);
    assert(more.last() == reply);
    reveal_strlit(": ");
    reveal_strlit("short reply");
    reveal_strlit(": short reply");
    assert("camera rejected "@ + def.name@ + ": short reply"@ =~= "camera rejected "@ + def.name@
        + ": "@ + "short reply"@);
}

/// The replies of all parts, one after the other.
pub open spec fn joined(parts: Seq<Seq<Result<Seq<u8>, Seq<char>>>>) -> Seq<
    Result<Seq<u8>, Seq<char>>,
>
    decreases parts.len(),
{
    if parts.len() == 0 {
        Seq::empty()
    } else {
        joined(parts.drop_last()) + parts.last()
    }
}

/// Whether a setting is still under way before the last of `replies`.
pub open spec fn under_way(
    vc: VcInfo,
    setting: (ControlDef, Setting),
    replies: Seq<Result<Seq<u8>, Seq<char>>>,
) -> bool {
    replies.len() > 0 ==> after(vc, setting.0, setting.1, replies.drop_last()) is Send
}

/// Once a setting has ended, further replies change nothing.
proof fn lemma_under_way(
    vc: VcInfo,
    setting: (ControlDef, Setting),
    replies: Seq<Result<Seq<u8>, Seq<char>>>,
)
    requires
        replies.len() > 0,
        after(vc, setting.0, setting.1, replies) is Send,
    ensures
        after(vc, setting.0, setting.1, replies.drop_last()) is Send,
{
}

/// A request that stands at the beginning of a setting goes on as the setting
/// by itself would.
proof fn lemma_one_setting(
    params: Seq<(Seq<char>, Seq<char>)>,
    vc: VcInfo,
    settings: Seq<(ControlDef, Setting)>,
    i: int,
    base: Seq<Result<Seq<u8>, Seq<char>>>,
    replies: Seq<Result<Seq<u8>, Seq<char>>>,
)
    requires
        0 <= i < settings.len(),
        request_after(params, true, Some(vc), base) == proceed_spec(
            vc,
            settings,
            i,
            report(settings.take(i)),
        ),
        under_way(vc, settings[i], replies),
    ensures
        request_after(params, true, Some(vc), base + replies) == (match after(
            vc,
            settings[i].0,
            settings[i].1,
            replies,
        ) {
            StepView::Send(stage, t) => ApplyView::Send(
                JobView { vc, settings, index: i, stage, applied: report(settings.take(i)) },
                t,
            ),
            StepView::Fail(status, text) => ApplyView::Failed(status, text),
            StepView::Done(line) => proceed_spec(
                vc,
                settings,
                i + 1,
                report(settings.take(i)).push(line),
            ),
        }),
    decreases replies.len(),
{
    if replies.len() == 0 {
        assert(base + replies =~= base);
    } else {
        let init = replies.drop_last();
        if init.len() > 0 {
            lemma_under_way(vc, settings[i], init);
        }
        lemma_one_setting(params, vc, settings, i, base, init);
        assert((base + replies).drop_last() =~= base + init);
        assert((base + replies).last() == replies.last());
    }
}

/// A request makes all the transfers of all its settings, those of one after
/// those of the other: when the settings before have been applied, it is where
/// the next setting by itself would be, fails as that fails, and is finished
/// when the last one is.
pub proof fn law_request_is_its_settings(
    params: Seq<(Seq<char>, Seq<char>)>,
    vc: VcInfo,
    parts: Seq<Seq<Result<Seq<u8>, Seq<char>>>>,
)
    requires
        requested(params) is Ok,
        0 < parts.len() <= requested(params)->Ok_0.len(),
        forall|i: int|
            0 <= i < parts.len() ==> under_way(
                vc,
                requested(params)->Ok_0[i],
                #[trigger] parts[i],
            ),
        forall|i: int|
            0 <= i < parts.len() - 1 ==> after(
                vc,
                requested(params)->Ok_0[i].0,
                requested(params)->Ok_0[i].1,
                #[trigger] parts[i],
            ) is Done,
    ensures
        ({
            let settings = requested(params)->Ok_0;
            let last = parts.len() - 1;
            let now = request_after(params, true, Some(vc), joined(parts));
            match after(vc, settings[last].0, settings[last].1, parts[last]) {
                StepView::Send(_, t) => now matches ApplyView::Send(job, sent) && sent == t
                    && job.index == last && job.settings == settings && job.vc == vc,
                StepView::Fail(status, text) => now == ApplyView::Failed(status, text),
                StepView::Done(_) => if parts.len() == settings.len() {
                    now matches ApplyView::Finished(lines) && lines.len() == settings.len()
                } else {
                    now !is Finished
                },
            }
        }),
{
    lemma_parts(params, vc, parts);
    let settings = requested(params)->Ok_0;
    let last = parts.len() - 1;
    assert(report(settings.take(last)).len() == last);
}

proof fn lemma_parts(
    params: Seq<(Seq<char>, Seq<char>)>,
    vc: VcInfo,
    parts: Seq<Seq<Result<Seq<u8>, Seq<char>>>>,
)
    requires
        requested(params) is Ok,
        0 < parts.len() <= requested(params)->Ok_0.len(),
        forall|i: int|
            0 <= i < parts.len() ==> under_way(
                vc,
                requested(params)->Ok_0[i],
                #[trigger] parts[i],
            ),
        forall|i: int|
            0 <= i < parts.len() - 1 ==> after(
                vc,
                requested(params)->Ok_0[i].0,
                requested(params)->Ok_0[i].1,
                #[trigger] parts[i],
            ) is Done,
    ensures
        ({
            let settings = requested(params)->Ok_0;
            let i = parts.len() - 1;
            request_after(params, true, Some(vc), joined(parts)) == (match after(
                vc,
                settings[i].0,
                settings[i].1,
                parts[i],
            ) {
                StepView::Send(stage, t) => ApplyView::Send(
                    JobView { vc, settings, index: i, stage, applied: report(settings.take(i)) },
                    t,
                ),
                StepView::Fail(status, text) => ApplyView::Failed(status, text),
                StepView::Done(line) => proceed_spec(
                    vc,
                    settings,
                    i + 1,
                    report(settings.take(i)).push(line),
                ),
            })
        }),
    decreases parts.len(),
{
    let settings = requested(params)->Ok_0;
    let i = parts.len() - 1;
    let init = parts.drop_last();
    let base = joined(init);
    lemma_requested_ok(params);
    if i == 0 {
        assert(base =~= Seq::empty());
        assert(settings.take(0) =~= Seq::empty());
        assert(report(settings.take(0)) =~= Seq::empty());
    } else {
        assert forall|j: int| 0 <= j < init.len() implies under_way(
            vc,
            settings[j],
            #[trigger] init[j],
        ) by {
            assert(init[j] == parts[j]);
        }
        assert forall|j: int| 0 <= j < init.len() - 1 implies after(
            vc,
            settings[j].0,
            settings[j].1,
            #[trigger] init[j],
        ) is Done by {
            assert(init[j] == parts[j]);
        }
        lemma_parts(params, vc, init);
        assert(init[i - 1] == parts[i - 1]);
        assert(after(vc, settings[i - 1].0, settings[i - 1].1, parts[i - 1]) is Done);
        lemma_standing(vc, settings[i - 1].0, settings[i - 1].1, parts[i - 1]);
        let line = after(vc, settings[i - 1].0, settings[i - 1].1, parts[i - 1])->Done_0;
        assert(report(settings.take(i)) =~= report(settings.take(i - 1)).push(line));
    }
    lemma_one_setting(params, vc, settings, i, base, parts[i]);
}

} // verus!
