//! What holds of the transfers that settings lead to, whatever the camera
//! replies.

use crate::controls::apply::{
    begin_spec, done_text, has_auto, read_transfer, reply_spec, report, requested, resume_spec,
    setting_ok, stage_fits, start_spec, zeros, ApplyView, Stage, StepView,
};
use crate::controls::transfer::{
    supported_spec, REQ_GET_CUR, REQ_GET_MAX, REQ_GET_MIN, REQ_GET_RES, REQ_SET_CUR,
};
use crate::uvc::descriptor::VcInfo;
use crate::uvc::setting::{law_accepted_value_fits, Setting};
use crate::uvc::table::{control_table, law_table_layout, AutoKind, ControlDef};
use crate::uvc::value::{
    auto_ae_mode_spec, decode_spec, law_auto_ae_mode_is_offered, law_written_value_is_read_back,
    value_max, value_min,
};
use vstd::prelude::*;

verus! {

/// Where a setting stands after the camera has sent `replies`.
pub open spec fn after(
    vc: VcInfo,
    def: ControlDef,
    setting: Setting,
    replies: Seq<Result<Seq<u8>, Seq<char>>>,
) -> StepView
    decreases replies.len(),
{
    if replies.len() == 0 {
        match start_spec(vc, def, setting) {
            Ok((stage, t)) => StepView::Send(stage, t),
            Err(f) => StepView::Fail(f.0, f.1),
        }
    } else {
        match after(vc, def, setting, replies.drop_last()) {
            StepView::Send(stage, _) => resume_spec(
                supported_spec(vc, def.unit, def.bit)->0,
                def,
                setting,
                stage,
                replies.last(),
            ),
            ended => ended,
        }
    }
}

/// The request codes and selectors of the transfers of a setting that goes
/// through, in order.
pub open spec fn planned(vc: VcInfo, def: ControlDef, setting: Setting) -> Seq<(u8, u8)> {
    match setting {
        Setting::Auto => match def.auto->0.kind {
            AutoKind::Flag => seq![(REQ_SET_CUR, def.auto->0.selector)],
            AutoKind::AeMode => seq![
                (REQ_GET_RES, def.auto->0.selector),
                (REQ_SET_CUR, def.auto->0.selector),
            ],
        },
        Setting::Value(_) => (if has_auto(vc, def) {
            seq![(REQ_SET_CUR, def.auto->0.selector)]
        } else {
            Seq::empty()
        }) + seq![(REQ_GET_MIN, def.selector), (REQ_GET_MAX, def.selector)] + (if def.total
            != def.len {
            seq![(REQ_GET_CUR, def.selector)]
        } else {
            Seq::empty()
        }) + seq![(REQ_SET_CUR, def.selector)],
    }
}

/// The position of the reply that tells the smallest value.
pub open spec fn min_reply(vc: VcInfo, def: ControlDef) -> int {
    if has_auto(vc, def) {
        1
    } else {
        0
    }
}

/// The value that a reply gives.
pub open spec fn told(def: ControlDef, reply: Result<Seq<u8>, Seq<char>>) -> Option<i64> {
    match reply {
        Ok(data) => decode_spec(def, data),
        Err(_) => None,
    }
}

/// The camera has told a range, and `v` lies in it.
pub open spec fn within_told_range(
    vc: VcInfo,
    def: ControlDef,
    v: i64,
    replies: Seq<Result<Seq<u8>, Seq<char>>>,
) -> bool {
    let k = min_reply(vc, def);
    &&& replies.len() >= k + 2
    &&& told(def, replies[k]) matches Some(min) && min <= v
    &&& told(def, replies[k + 1]) matches Some(max) && v <= max
}

/// What is known at each stage.
pub open spec fn standing(
    vc: VcInfo,
    def: ControlDef,
    setting: Setting,
    stage: Stage,
    replies: Seq<Result<Seq<u8>, Seq<char>>>,
) -> bool {
    let k = min_reply(vc, def);
    let n = replies.len();
    &&& stage_fits(setting, stage)
    &&& match stage {
        Stage::ReadModes => n == 0 && def.auto->0.kind is AeMode,
        Stage::EnableAuto => n == (if def.auto->0.kind is AeMode {
            1int
        } else {
            0
        }),
        Stage::LeaveAuto => n == 0 && k == 1,
        Stage::ReadMin => n == k,
        Stage::ReadMax(min) => n == k + 1 && told(def, replies[k]) == Some(min),
        Stage::ReadCurrent => n == k + 2 && def.total != def.len && within_told_range(
            vc,
            def,
            setting->Value_0,
            replies,
        ),
        Stage::Write => n == k + 2 + (if def.total != def.len {
            1int
        } else {
            0
        }) && within_told_range(vc, def, setting->Value_0, replies),
    }
}

pub(crate) proof fn lemma_standing(
    vc: VcInfo,
    def: ControlDef,
    setting: Setting,
    replies: Seq<Result<Seq<u8>, Seq<char>>>,
)
    requires
        setting_ok(def, setting),
    ensures
        match after(vc, def, setting, replies) {
            StepView::Send(stage, t) => {
                &&& supported_spec(vc, def.unit, def.bit) is Some
                &&& t.unit == supported_spec(vc, def.unit, def.bit)->0.id
                &&& standing(vc, def, setting, stage, replies)
                &&& replies.len() < planned(vc, def, setting).len()
                &&& (t.request, t.selector) == planned(vc, def, setting)[replies.len() as int]
            },
            StepView::Done(line) => {
                &&& line == done_text(def, setting)
                &&& replies.len() >= planned(vc, def, setting).len()
                &&& setting matches Setting::Value(v) ==> within_told_range(vc, def, v, replies)
            },
            StepView::Fail(status, _) => {
                &&& status == 400 || status == 500
                &&& status == 500 ==> replies.len() > 0
            },
        },
    decreases replies.len(),
{
    if replies.len() > 0 {
        let before = replies.drop_last();
        lemma_standing(vc, def, setting, before);
        let k = min_reply(vc, def);
        if let StepView::Send(stage, _) = after(vc, def, setting, before) {
            assert(replies.len() == before.len() + 1);
            assert(forall|i: int| 0 <= i < before.len() ==> replies[i] == before[i]);
        }
    }
}

/// The transfers of a setting are the planned ones, in order, all to the
/// entity that has the control. So a setting comes to an end after at most
/// five transfers, whatever the camera replies, and it succeeds only after
/// all of them.
pub proof fn law_transfers_follow_the_plan(
    vc: VcInfo,
    def: ControlDef,
    setting: Setting,
    replies: Seq<Result<Seq<u8>, Seq<char>>>,
)
    requires
        setting_ok(def, setting),
    ensures
        planned(vc, def, setting).len() <= 5,
        match after(vc, def, setting, replies) {
            StepView::Send(_, t) => {
                &&& supported_spec(vc, def.unit, def.bit) is Some
                &&& t.unit == supported_spec(vc, def.unit, def.bit)->0.id
                &&& replies.len() < planned(vc, def, setting).len()
                &&& (t.request, t.selector) == planned(vc, def, setting)[replies.len() as int]
            },
            StepView::Done(line) => {
                &&& line == done_text(def, setting)
                &&& replies.len() >= planned(vc, def, setting).len()
            },
            StepView::Fail(status, _) => status == 400 || status == 500 && replies.len() > 0,
        },
{
    lemma_standing(vc, def, setting, replies);
}

/// A transfer that sets a control itself is sent only after the camera has
/// told its range and the value lies in it. The transfer carries the value,
/// and next to it the bytes that the camera has just told: a control that
/// shares its data with another one leaves the other one as it is.
pub proof fn law_value_is_written_within_range(
    vc: VcInfo,
    i: int,
    setting: Setting,
    replies: Seq<Result<Seq<u8>, Seq<char>>>,
)
    requires
        0 <= i < control_table().len(),
        setting_ok(control_table()[i], setting),
        setting matches Setting::Value(v) ==> value_min(control_table()[i]) <= v <= value_max(
            control_table()[i],
        ),
    ensures
        ({
            let def = control_table()[i];
            after(vc, def, setting, replies) matches StepView::Send(_, t) ==> t.request
                == REQ_SET_CUR && t.selector == def.selector ==> {
                &&& setting matches Setting::Value(v)
                &&& within_told_range(vc, def, v, replies)
                &&& decode_spec(def, t.data) == Some(v)
                &&& def.total == def.len ==> t.data.len() == def.total
                &&& def.total != def.len ==> {
                    &&& replies.last() matches Ok(current)
                    &&& t.data.len() == current.len()
                    &&& forall|j: int|
                        0 <= j < current.len() && !(def.offset <= j < def.offset + def.len)
                            ==> t.data[j] == #[trigger] current[j]
                }
            }
        }),
{
    let def = control_table()[i];
    lemma_standing(vc, def, setting, replies);
    law_table_layout();
    assert(forall|j: int|
        0 <= j < control_table().len() ==> ((#[trigger] control_table()[j]).auto matches Some(auto)
            ==> auto.selector != control_table()[j].selector));
    if let StepView::Send(stage, t) = after(vc, def, setting, replies) {
        if t.request == REQ_SET_CUR && t.selector == def.selector {
            assert(setting is Value);
            let v = setting->Value_0;
            assert(stage is Write);
            let before = replies.drop_last();
            lemma_standing(vc, def, setting, before);
            if def.total == def.len {
                law_written_value_is_read_back(def, v, zeros(def.total as nat));
            } else {
                assert(replies.last() is Ok);
                let current = replies.last()->Ok_0;
                law_written_value_is_read_back(def, v, current);
            }
        }
    }
}

/// A value is applied whenever the camera supports the control, answers every
/// transfer in full and has a range that the value lies in; whether it agreed
/// to leave its automatic mode does not matter.
pub proof fn law_value_in_range_is_applied(
    vc: VcInfo,
    def: ControlDef,
    v: i64,
    replies: Seq<Result<Seq<u8>, Seq<char>>>,
)
    requires
        setting_ok(def, Setting::Value(v)),
        supported_spec(vc, def.unit, def.bit) is Some,
        replies.len() == planned(vc, def, Setting::Value(v)).len(),
        within_told_range(vc, def, v, replies),
        forall|i: int|
            min_reply(vc, def) <= i < replies.len() - 1 ==> (#[trigger] replies[i] matches Ok(data)
                && data.len() == def.total),
        replies.last() is Ok,
    ensures
        after(vc, def, Setting::Value(v), replies) == StepView::Done(
            done_text(def, Setting::Value(v)),
        ),
{
    let n = replies.len() as int;
    let k = min_reply(vc, def);
    lemma_prefixes(vc, def, Setting::Value(v), replies);
    assert(k <= n - 2);
    let start = after(vc, def, Setting::Value(v), replies.take(0));
    let e = supported_spec(vc, def.unit, def.bit)->0;
    if k == 1 {
        assert(start matches StepView::Send(Stage::LeaveAuto, _));
        assert(after(vc, def, Setting::Value(v), replies.take(0int + 1)) == StepView::Send(
            Stage::ReadMin,
            read_transfer(e, REQ_GET_MIN, def),
        ));
    }
    assert(after(vc, def, Setting::Value(v), replies.take(k)) matches StepView::Send(
        Stage::ReadMin,
        _,
    ));
    assert(after(vc, def, Setting::Value(v), replies.take(k + 1)) matches StepView::Send(
        Stage::ReadMax(_),
        _,
    ));
    if def.total != def.len {
        assert(after(vc, def, Setting::Value(v), replies.take(k + 1 + 1)) matches StepView::Send(
            Stage::ReadCurrent,
            _,
        ));
        assert(replies[k + 2] is Ok);
        assert(after(vc, def, Setting::Value(v), replies.take(k + 2 + 1)) matches StepView::Send(
            Stage::Write,
            _,
        ));
    } else {
        assert(after(vc, def, Setting::Value(v), replies.take(k + 1 + 1)) matches StepView::Send(
            Stage::Write,
            _,
        ));
    }
    assert(replies.take(n) =~= replies);
    assert(replies.take(n - 1 + 1) =~= replies);
}

/// Each reply leads from where the replies before it have led.
proof fn lemma_prefixes(
    vc: VcInfo,
    def: ControlDef,
    setting: Setting,
    replies: Seq<Result<Seq<u8>, Seq<char>>>,
)
    ensures
        forall|i: int|
            0 <= i < replies.len() ==> #[trigger] after(vc, def, setting, replies.take(i + 1))
                == (match after(vc, def, setting, replies.take(i)) {
                StepView::Send(stage, _) => resume_spec(
                    supported_spec(vc, def.unit, def.bit)->0,
                    def,
                    setting,
                    stage,
                    replies[i],
                ),
                ended => ended,
            }),
{
    assert forall|i: int| 0 <= i < replies.len() implies #[trigger] after(
        vc,
        def,
        setting,
        replies.take(i + 1),
    ) == (match after(vc, def, setting, replies.take(i)) {
        StepView::Send(stage, _) => resume_spec(
            supported_spec(vc, def.unit, def.bit)->0,
            def,
            setting,
            stage,
            replies[i],
        ),
        ended => ended,
    }) by {
        assert(replies.take(i + 1).drop_last() =~= replies.take(i));
    }
}

/// The automatic mode is switched on whenever the camera has one for the
/// control and answers; for the exposure the mode is one that it offers.
pub proof fn law_automatic_mode_is_applied(
    vc: VcInfo,
    def: ControlDef,
    replies: Seq<Result<Seq<u8>, Seq<char>>>,
)
    requires
        setting_ok(def, Setting::Auto),
        supported_spec(vc, def.unit, def.bit) is Some,
        has_auto(vc, def),
        replies.len() == planned(vc, def, Setting::Auto).len(),
        replies.last() is Ok,
        def.auto->0.kind is AeMode ==> (replies[0] matches Ok(data) && data.len() == 1
            && data[0] & 14 != 0),
    ensures
        after(vc, def, Setting::Auto, replies) == StepView::Done(done_text(def, Setting::Auto)),
        def.auto->0.kind is AeMode ==> (after(
            vc,
            def,
            Setting::Auto,
            replies.drop_last(),
        ) matches StepView::Send(_, t) && t.data.len() == 1 && t.data[0] != 1 && t.data[0]
            & replies[0]->Ok_0[0] == t.data[0]),
{
    reveal_with_fuel(after, 3);
    if def.auto->0.kind is AeMode {
        law_auto_ae_mode_is_offered(replies[0]->Ok_0[0]);
        let a = replies[0]->Ok_0[0];
        let m = auto_ae_mode_spec(a)->0;
        assert(a & m == m & a) by (bit_vector);
        assert(replies.drop_last()[0] == replies[0]);
    }
}

/// Where a request stands after the camera has sent `replies`.
pub open spec fn request_after(
    params: Seq<(Seq<char>, Seq<char>)>,
    attached: bool,
    vc: Option<VcInfo>,
    replies: Seq<Result<Seq<u8>, Seq<char>>>,
) -> ApplyView
    decreases replies.len(),
{
    if replies.len() == 0 {
        begin_spec(params, attached, vc)
    } else {
        match request_after(params, attached, vc, replies.drop_last()) {
            ApplyView::Send(job, _) => reply_spec(job, replies.last()),
            ended => ended,
        }
    }
}

/// Parameters that are refused never reach the camera; otherwise the settings
/// are applied in the order of the parameters, each only after all before it,
/// and success is reported only when every one of them has been applied, with
/// one line for each. A failure is answered with 400, 500 or 503, and 503 only
/// where there is no camera to ask.
pub proof fn law_settings_are_applied_in_order(
    params: Seq<(Seq<char>, Seq<char>)>,
    attached: bool,
    vc: Option<VcInfo>,
    replies: Seq<Result<Seq<u8>, Seq<char>>>,
)
    ensures
        requested(params) matches Err(e) ==> request_after(params, attached, vc, replies)
            == ApplyView::Failed(400, e),
        requested(params) matches Ok(settings) ==> match request_after(
            params,
            attached,
            vc,
            replies,
        ) {
            ApplyView::Send(job, t) => {
                &&& job.valid()
                &&& attached && vc == Some(job.vc)
                &&& job.settings == settings
                &&& job.applied == report(settings.take(job.index))
                &&& t.unit == job.entity().id
            },
            ApplyView::Finished(lines) => lines == report(settings),
            ApplyView::Failed(status, _) => {
                ||| status == 503 && (!attached || vc is None)
                ||| status == 400
                ||| status == 500 && replies.len() > 0
            },
        },
    decreases replies.len(),
{
    lemma_requested_ok(params);
    if replies.len() == 0 {
        if let Ok(settings) = requested(params) {
            assert(report(settings.take(0)) =~= Seq::empty());
            if settings.len() == 0 {
                assert(report(settings) =~= Seq::empty());
            }
        }
    } else {
        law_settings_are_applied_in_order(params, attached, vc, replies.drop_last());
        if let ApplyView::Send(job, _) = request_after(params, attached, vc, replies.drop_last()) {
            if let Ok(settings) = requested(params) {
                let step = resume_spec(
                    job.entity(),
                    job.def(),
                    job.setting(),
                    job.stage,
                    replies.last(),
                );
                if let StepView::Done(line) = step {
                    assert(line == done_text(job.def(), job.setting()));
                    assert(report(settings.take(job.index + 1)) =~= report(
                        settings.take(job.index),
                    ).push(line));
                    if job.index + 1 == settings.len() {
                        assert(settings.take(job.index + 1) =~= settings);
                    }
                }
            }
        }
    }
}

pub(crate) proof fn lemma_requested_ok(params: Seq<(Seq<char>, Seq<char>)>)
    ensures
        requested(params) matches Ok(settings) ==> forall|i: int|
            0 <= i < settings.len() ==> setting_ok((#[trigger] settings[i]).0, settings[i].1),
    decreases params.len(),
{
    if params.len() > 0 {
        lemma_requested_ok(params.drop_last());
        law_accepted_value_fits(params.last().0, params.last().1, Seq::empty());
    }
}

} // verus!
