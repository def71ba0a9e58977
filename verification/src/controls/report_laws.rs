//! What a report asks of the camera and what it says, piece by piece.

use crate::controls::apply::{reply_view, report, zeros};
use crate::controls::report::{
    auto_property, entries, entry_properties, entry_text, entry_transfers, field_property,
    report_text, report_transfers, transfer_views,
};
use crate::controls::transfer::{
    failure_view, supported_spec, Failure, Transfer, TransferView,
};
use crate::text::{dec_int, join};
use crate::uvc::descriptor::VcInfo;
use crate::uvc::setting::{limits, Setting};
use crate::uvc::table::{control_table, law_table_layout, AutoKind, ControlDef};
use crate::uvc::value::{
    decode_spec, display_spec, encode_spec, law_written_value_is_read_back, pow256,
};
use vstd::prelude::*;

verus! {

/// Whether a transfer reads from a unit by the given request and selector.
pub open spec fn reads(t: TransferView, request: u8, selector: u8, unit: u8, len: int) -> bool {
    &&& t.request == request
    &&& t.selector == selector
    &&& t.unit == unit
    &&& t.data.len() == len
}

/// For a supported control the camera is asked for the state of the automatic
/// mode, where it has one, and then for the current value (0x81), the smallest
/// (0x82), the largest (0x83), the default (0x87) and the step (0x84), each
/// with the whole data of the control; for any other control for nothing.
pub proof fn law_entry_transfers(vc: VcInfo, def: ControlDef)
    ensures
        supported_spec(vc, def.unit, def.bit) is None ==> entry_transfers(vc, def).len() == 0,
        supported_spec(vc, def.unit, def.bit) matches Some(e) ==> {
            let list = entry_transfers(vc, def);
            let auto = def.auto is Some && supported_spec(
                vc,
                def.unit,
                (def.auto->0).bit,
            ) is Some;
            let n: int = if auto {
                1
            } else {
                0
            };
            &&& list.len() == n + 5
            &&& auto ==> reads(list[0], 0x81, (def.auto->0).selector, e.id, 1)
            &&& reads(list[n], 0x81, def.selector, e.id, def.total as int)
            &&& reads(list[n + 1], 0x82, def.selector, e.id, def.total as int)
            &&& reads(list[n + 2], 0x83, def.selector, e.id, def.total as int)
            &&& reads(list[n + 3], 0x87, def.selector, e.id, def.total as int)
            &&& reads(list[n + 4], 0x84, def.selector, e.id, def.total as int)
        },
{
}

/// The transfers of a report are those of its controls, in their order.
pub proof fn law_report_transfers(vc: VcInfo, defs: Seq<ControlDef>, last: ControlDef)
    ensures
        report_transfers(vc, Seq::empty()).len() == 0,
        report_transfers(vc, defs.push(last)) == report_transfers(vc, defs) + entry_transfers(
            vc,
            last,
        ),
{
    assert(defs.push(last).drop_last() =~= defs);
}

/// A value that the camera tells is reported under its name, the step as it
/// is and any other value as the query parameter takes it; where the camera
/// tells none, nothing is reported.
pub proof fn law_field(def: ControlDef, name: Seq<char>, raw: bool, reply: Option<Seq<u8>>)
    ensures
        match reply {
            Some(data) => match decode_spec(def, data) {
                Some(v) => field_property(def, name, raw, reply) == seq![
                    "\""@ + name + "\": "@ + dec_int(
                        if raw {
                            v as int
                        } else {
                            display_spec(def, v) as int
                        },
                    ),
                ],
                None => field_property(def, name, raw, reply).len() == 0,
            },
            None => field_property(def, name, raw, reply).len() == 0,
        },
{
}

/// A value that was written to a control, negative or not, is the value that
/// the report shows for it.
pub proof fn law_written_value_is_reported(i: int, v: i64, name: Seq<char>, raw: bool)
    requires
        0 <= i < control_table().len(),
        ({
            let (lo, hi) = limits(control_table()[i].len, control_table()[i].signed);
            lo <= v <= hi
        }),
    ensures
        ({
            let def = control_table()[i];
            let data = encode_spec(def, v as int, zeros(def.total as nat));
            field_property(def, name, raw, Some(data)) == seq![
                "\""@ + name + "\": "@ + (if raw {
                    dec_int(v as int)
                } else {
                    dec_int(display_spec(def, v) as int)
                }),
            ]
        }),
{
    law_table_layout();
    reveal_with_fuel(pow256, 5);
    let def = control_table()[i];
    assert(def.len == 1 || def.len == 2 || def.len == 4);
    law_written_value_is_read_back(def, v, zeros(def.total as nat));
}

/// Whether the automatic mode is on: a flag is off where it is 0, the exposure
/// is manual in mode 1, and the first byte of the reply tells; without it
/// nothing is reported.
pub proof fn law_automatic_state(kind: AutoKind, data: Seq<u8>)
    ensures
        data.len() > 0 ==> auto_property(AutoKind::Flag, Some(data)) == seq![
            if data[0] == 0 {
                "\"auto\": false"@
            } else {
                "\"auto\": true"@
            },
        ],
        data.len() > 0 ==> auto_property(AutoKind::AeMode, Some(data)) == seq![
            if data[0] == 1 {
                "\"auto\": false"@
            } else {
                "\"auto\": true"@
            },
        ],
        data.len() == 0 ==> auto_property(kind, Some(data)).len() == 0,
        auto_property(kind, None).len() == 0,
{
}

/// The data of the reply at a place, where the transfer went well.
pub open spec fn reply_there(replies: Seq<Result<Vec<u8>, String>>, i: int) -> Option<Seq<u8>> {
    if 0 <= i < replies.len() && replies[i] is Ok {
        Some(replies[i]->Ok_0@)
    } else {
        None
    }
}

/// The entry of a control: its name, and in braces the state of the automatic
/// mode, the current value, the smallest, the largest, the default and the
/// step, made of its replies in the order of its transfers.
pub proof fn law_entry(
    vc: VcInfo,
    def: ControlDef,
    replies: Seq<Result<Vec<u8>, String>>,
    from: int,
)
    ensures
        ({
            let auto = def.auto is Some && supported_spec(
                vc,
                def.unit,
                (def.auto->0).bit,
            ) is Some;
            let n = if auto {
                from + 1
            } else {
                from
            };
            entry_text(vc, def, replies, from) == "  \""@ + def.name@ + "\": {"@ + join(
                (if auto {
                    auto_property((def.auto->0).kind, reply_there(replies, from))
                } else {
                    Seq::empty()
                }) + field_property(def, "cur"@, false, reply_there(replies, n)) + field_property(
                    def,
                    "min"@,
                    false,
                    reply_there(replies, n + 1),
                ) + field_property(def, "max"@, false, reply_there(replies, n + 2))
                    + field_property(def, "def"@, false, reply_there(replies, n + 3))
                    + field_property(def, "step"@, true, reply_there(replies, n + 4)),
                ", "@,
            ) + "}"@
        }),
{
    let auto = def.auto is Some && supported_spec(vc, def.unit, (def.auto->0).bit) is Some;
    let n = if auto {
        from + 1
    } else {
        from
    };
    assert(entry_properties(vc, def, replies, from) == (if auto {
        auto_property((def.auto->0).kind, reply_there(replies, from))
    } else {
        Seq::empty()
    }) + field_property(def, "cur"@, false, reply_there(replies, n)) + field_property(
        def,
        "min"@,
        false,
        reply_there(replies, n + 1),
    ) + field_property(def, "max"@, false, reply_there(replies, n + 2)) + field_property(
        def,
        "def"@,
        false,
        reply_there(replies, n + 3),
    ) + field_property(def, "step"@, true, reply_there(replies, n + 4)));
}

/// A control adds its entry to a report, made of the replies to its own
/// transfers, exactly where the camera supports it; the report has its entries
/// in braces, one to a line.
pub proof fn law_report(
    vc: VcInfo,
    defs: Seq<ControlDef>,
    last: ControlDef,
    replies: Seq<Result<Vec<u8>, String>>,
)
    ensures
        entries(vc, Seq::empty(), replies).len() == 0,
        entries(vc, defs.push(last), replies) == (if supported_spec(
            vc,
            last.unit,
            last.bit,
        ) is Some {
            entries(vc, defs, replies).push(
                entry_text(vc, last, replies, report_transfers(vc, defs).len() as int),
            )
        } else {
            entries(vc, defs, replies)
        }),
        report_text(vc, replies) == "{\n"@ + join(entries(vc, control_table(), replies), ",\n"@)
            + "\n}\n"@,
{
    assert(defs.push(last).drop_last() =~= defs);
}

/// The lines on applied settings: one for each, with its name and what it was
/// set to.
pub proof fn law_lines(settings: Seq<(ControlDef, Setting)>, i: int)
    requires
        0 <= i < settings.len(),
    ensures
        report(settings).len() == settings.len(),
        report(settings)[i] == settings[i].0.name@ + "="@ + (match settings[i].1 {
            Setting::Auto => "auto"@,
            Setting::Value(v) => dec_int(display_spec(settings[i].0, v) as int),
        }),
{
    reveal_strlit("=");
    reveal_strlit("auto");
    reveal_strlit("=auto");
    let name = settings[i].0.name@;
    assert(name + "=auto"@ =~= name + "="@ + "auto"@);
}

/// What a failure, a reply and a list of transfers hold is taken over as it
/// is.
pub proof fn law_contents(
    f: Failure,
    data: Vec<u8>,
    text: String,
    list: Seq<Transfer>,
    i: int,
)
    ensures
        failure_view(f) == (f.0, f.1@),
        reply_view(Ok(data)) == Ok::<_, Seq<char>>(data@),
        reply_view(Err(text)) == Err::<Seq<u8>, _>(text@),
        transfer_views(list).len() == list.len(),
        0 <= i < list.len() ==> transfer_views(list)[i] == (TransferView {
            request: list[i].request,
            selector: list[i].selector,
            unit: list[i].unit,
            data: list[i].data@,
        }),
{
}

} // verus!
