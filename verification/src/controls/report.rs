//! Reporting the controls that a camera supports.

use crate::controls::apply::{has_auto, read_of, read_transfer, reply_view};
use crate::controls::transfer::{
    supported, supported_spec, Transfer, TransferView, REQ_GET_CUR, REQ_GET_DEF, REQ_GET_MAX,
    REQ_GET_MIN, REQ_GET_RES, REQ_SET_CUR,
};
use crate::text::{append_int, dec_int, join};
use crate::uvc::descriptor::{Entity, VcInfo};
use crate::uvc::table::{
    control_table, controls, law_table_layout, layout_ok, AutoControl, AutoKind, ControlDef,
};
use crate::uvc::value::{decode, decode_spec, display_spec, display_value};
use vstd::prelude::*;
use vstd::string::*;

verus! {

/// A request for the state of the automatic mode.
pub open spec fn auto_state_transfer(e: Entity, auto: AutoControl) -> TransferView {
    TransferView { request: REQ_GET_CUR, selector: auto.selector, unit: e.id, data: seq![0u8] }
}

/// The transfers that report one control: the state of its automatic mode,
/// where the camera has one, then the current value, the range, the camera's
/// default and the step.
pub open spec fn entry_transfers(vc: VcInfo, def: ControlDef) -> Seq<TransferView> {
    match supported_spec(vc, def.unit, def.bit) {
        None => Seq::empty(),
        Some(e) => (if has_auto(vc, def) {
            seq![auto_state_transfer(e, def.auto->0)]
        } else {
            Seq::empty()
        }) + seq![
            read_transfer(e, REQ_GET_CUR, def),
            read_transfer(e, REQ_GET_MIN, def),
            read_transfer(e, REQ_GET_MAX, def),
            read_transfer(e, REQ_GET_DEF, def),
            read_transfer(e, REQ_GET_RES, def),
        ],
    }
}

/// The transfers that report the given controls.
pub open spec fn report_transfers(vc: VcInfo, defs: Seq<ControlDef>) -> Seq<TransferView>
    decreases defs.len(),
{
    if defs.len() == 0 {
        Seq::empty()
    } else {
        report_transfers(vc, defs.drop_last()) + entry_transfers(vc, defs.last())
    }
}

/// The transfers of a list.
pub open spec fn transfer_views(v: Seq<Transfer>) -> Seq<TransferView> {
    v.map_values(|t: Transfer| t@)
}

fn auto_state(e: Entity, auto: AutoControl) -> (t: Transfer)
    ensures
        t@ == auto_state_transfer(e, auto),
{
    let mut data: Vec<u8> = Vec::new();
    data.push(0);
    assert(data@ =~= seq![0u8]);
    Transfer { request: REQ_GET_CUR, selector: auto.selector, unit: e.id, data }
}

/// The automatic mode that the camera has for a control.
fn auto_of(vc: &VcInfo, def: &ControlDef) -> (r: Option<AutoControl>)
    requires
        layout_ok(*def),
    ensures
        r == (if has_auto(*vc, *def) {
            def.auto
        } else {
            None
        }),
{
    match def.auto {
        Some(auto) => if supported(vc, def.unit, auto.bit).is_some() {
            Some(auto)
        } else {
            None
        },
        None => None,
    }
}

/// The transfers to make for a report on all controls. They do not depend on
/// one another's replies.
pub fn report_plan(vc: &VcInfo) -> (r: Vec<Transfer>)
    ensures
        transfer_views(r@) == report_transfers(*vc, control_table()),
{
    let all = controls();
    let mut out: Vec<Transfer> = Vec::new();
    let mut i: usize = 0;
    proof {
        law_table_layout();
        assert(transfer_views(out@) =~= Seq::empty());
        assert(all@.take(0) =~= Seq::empty());
    }
    while i < all.len()
        invariant
            i <= all.len(),
            all@ == control_table(),
            forall|j: int| 0 <= j < all.len() ==> layout_ok(#[trigger] all@[j]),
            transfer_views(out@) == report_transfers(*vc, all@.take(i as int)),
        decreases all.len() - i,
    {
        let def = &all[i];
        let ghost before = transfer_views(out@);
        proof {
            assert(all@.take(i + 1).drop_last() =~= all@.take(i as int));
            assert(all@.take(i + 1).last() == *def);
        }
        if let Some(e) = supported(vc, def.unit, def.bit) {
            if let Some(auto) = auto_of(vc, def) {
                out.push(auto_state(e, auto));
            }
            out.push(read_of(e, REQ_GET_CUR, def));
            out.push(read_of(e, REQ_GET_MIN, def));
            out.push(read_of(e, REQ_GET_MAX, def));
            out.push(read_of(e, REQ_GET_DEF, def));
            out.push(read_of(e, REQ_GET_RES, def));
        }
        assert(transfer_views(out@) =~= before + entry_transfers(*vc, *def));
        i = i + 1;
    }
    assert(all@.take(i as int) =~= all@);
    out
}

/// The data of the reply at a position; none where the transfer failed.
pub open spec fn reply_at(replies: Seq<Result<Vec<u8>, String>>, i: int) -> Option<Seq<u8>> {
    if 0 <= i < replies.len() {
        match reply_view(replies[i]) {
            Ok(data) => Some(data),
            Err(_) => None,
        }
    } else {
        None
    }
}

/// The property that tells whether the automatic mode is on.
pub open spec fn auto_property(kind: AutoKind, reply: Option<Seq<u8>>) -> Seq<Seq<char>> {
    match reply {
        Some(data) => if data.len() == 0 {
            Seq::empty()
        } else if data[0] == (match kind {
            AutoKind::Flag => 0u8,
            AutoKind::AeMode => 1u8,
        }) {
            seq!["\"auto\": false"@]
        } else {
            seq!["\"auto\": true"@]
        },
        None => Seq::empty(),
    }
}

/// The property for one value of a control.
pub open spec fn value_property(name: Seq<char>, v: int) -> Seq<char> {
    "\""@ + name + "\": "@ + dec_int(v)
}

/// The property for a reply, where the camera gave one. The step is a raw
/// number; the other values are shown as parameters take them.
pub open spec fn field_property(
    def: ControlDef,
    name: Seq<char>,
    raw: bool,
    reply: Option<Seq<u8>>,
) -> Seq<Seq<char>> {
    match reply {
        Some(data) => match decode_spec(def, data) {
            Some(v) => seq![
                value_property(
                    name,
                    if raw {
                        v as int
                    } else {
                        display_spec(def, v) as int
                    },
                ),
            ],
            None => Seq::empty(),
        },
        None => Seq::empty(),
    }
}

/// The properties of a control from the replies that start at `from`.
pub open spec fn entry_properties(
    vc: VcInfo,
    def: ControlDef,
    replies: Seq<Result<Vec<u8>, String>>,
    from: int,
) -> Seq<Seq<char>> {
    let auto = has_auto(vc, def);
    let n = if auto {
        from + 1
    } else {
        from
    };
    (if auto {
        auto_property(def.auto->0.kind, reply_at(replies, from))
    } else {
        Seq::empty()
    }) + field_property(def, "cur"@, false, reply_at(replies, n)) + field_property(
        def,
        "min"@,
        false,
        reply_at(replies, n + 1),
    ) + field_property(def, "max"@, false, reply_at(replies, n + 2)) + field_property(
        def,
        "def"@,
        false,
        reply_at(replies, n + 3),
    ) + field_property(def, "step"@, true, reply_at(replies, n + 4))
}

/// The entry of a control in the report.
pub open spec fn entry_text(
    vc: VcInfo,
    def: ControlDef,
    replies: Seq<Result<Vec<u8>, String>>,
    from: int,
) -> Seq<char> {
    "  \""@ + def.name@ + "\": {"@ + join(entry_properties(vc, def, replies, from), ", "@) + "}"@
}

/// The entries of the given controls, those that the camera supports.
pub open spec fn entries(
    vc: VcInfo,
    defs: Seq<ControlDef>,
    replies: Seq<Result<Vec<u8>, String>>,
) -> Seq<Seq<char>>
    decreases defs.len(),
{
    if defs.len() == 0 {
        Seq::empty()
    } else {
        let before = entries(vc, defs.drop_last(), replies);
        let from = report_transfers(vc, defs.drop_last()).len() as int;
        if supported_spec(vc, defs.last().unit, defs.last().bit) is Some {
            before.push(entry_text(vc, defs.last(), replies, from))
        } else {
            before
        }
    }
}

/// The report on all controls.
pub open spec fn report_text(vc: VcInfo, replies: Seq<Result<Vec<u8>, String>>) -> Seq<char> {
    "{\n"@ + join(entries(vc, control_table(), replies), ",\n"@) + "\n}\n"@
}

/// A text that grows by parts with a separator between them.
struct Joined {
    text: String,
    empty: bool,
}

impl Joined {
    spec fn holds(self, parts: Seq<Seq<char>>, sep: Seq<char>) -> bool {
        self.text@ == join(parts, sep) && self.empty == (parts.len() == 0)
    }

    fn add_part(&mut self, part: &str, sep: &str, Ghost(parts): Ghost<Seq<Seq<char>>>)
        requires
            old(self).holds(parts, sep@),
        ensures
            final(self).holds(parts.push(part@), sep@),
    {
        if !self.empty {
            self.text.append(sep);
        }
        self.text.append(part);
        self.empty = false;
        proof {
            assert(parts.push(part@).drop_last() =~= parts);
            assert(self.text@ =~= join(parts.push(part@), sep@));
        }
    }
}

fn reply_data(replies: &[Result<Vec<u8>, String>], i: usize) -> (r: Option<&Vec<u8>>)
    ensures
        match r {
            Some(data) => reply_at(replies@, i as int) == Some(data@),
            None => reply_at(replies@, i as int) is None,
        },
{
    if i < replies.len() {
        match &replies[i] {
            Ok(data) => Some(data),
            Err(_) => None,
        }
    } else {
        None
    }
}

fn add_field(
    props: &mut Joined,
    def: &ControlDef,
    name: &str,
    raw: bool,
    reply: Option<&Vec<u8>>,
    Ghost(parts): Ghost<Seq<Seq<char>>>,
)
    requires
        layout_ok(*def),
        old(props).holds(parts, ", "@),
    ensures
        final(props).holds(
            parts + field_property(
                *def,
                name@,
                raw,
                match reply {
                    Some(data) => Some(data@),
                    None => None,
                },
            ),
            ", "@,
        ),
{
    if let Some(data) = reply {
        if let Some(v) = decode(def, data.as_slice()) {
            let shown: i64 = if raw {
                v
            } else {
                display_value(def, v)
            };
            let mut p = String::new();
            p.append("\"");
            p.append(name);
            p.append("\": ");
            append_int(&mut p, shown);
            assert(p@ =~= value_property(name@, shown as int));
            props.add_part(p.as_str(), ", ", Ghost(parts));
            assert(parts.push(p@) =~= parts + seq![p@]);
            return ;
        }
    }
    assert(parts + Seq::<Seq<char>>::empty() =~= parts);
}

fn add_auto(
    props: &mut Joined,
    kind: AutoKind,
    reply: Option<&Vec<u8>>,
    Ghost(parts): Ghost<Seq<Seq<char>>>,
)
    requires
        old(props).holds(parts, ", "@),
    ensures
        final(props).holds(
            parts + auto_property(
                kind,
                match reply {
                    Some(data) => Some(data@),
                    None => None,
                },
            ),
            ", "@,
        ),
{
    if let Some(data) = reply {
        if data.len() > 0 {
            let off: u8 = match kind {
                AutoKind::Flag => 0,
                AutoKind::AeMode => 1,
            };
            if data[0] == off {
                props.add_part("\"auto\": false", ", ", Ghost(parts));
                assert(parts.push("\"auto\": false"@) =~= parts + seq!["\"auto\": false"@]);
            } else {
                props.add_part("\"auto\": true", ", ", Ghost(parts));
                assert(parts.push("\"auto\": true"@) =~= parts + seq!["\"auto\": true"@]);
            }
            return ;
        }
    }
    assert(parts + Seq::<Seq<char>>::empty() =~= parts);
}

/// The entry of a control from the replies that start at `from`.
fn entry(vc: &VcInfo, def: &ControlDef, replies: &[Result<Vec<u8>, String>], from: usize) -> (r:
    String)
    requires
        layout_ok(*def),
        from + 6 <= usize::MAX,
    ensures
        r@ == entry_text(*vc, *def, replies@, from as int),
{
    let mut props = Joined { text: String::new(), empty: true };
    let ghost p0 = Seq::<Seq<char>>::empty();
    let mut n: usize = from;
    let ghost mut p1 = p0;
    assert(props.text@ =~= join(p0, ", "@));
    if let Some(auto) = auto_of(vc, def) {
        add_auto(&mut props, auto.kind, reply_data(replies, n), Ghost(p0));
        n = n + 1;
        proof {
            p1 = p0 + auto_property(auto.kind, reply_at(replies@, from as int));
        }
    }
    let ghost p2 = p1 + field_property(*def, "cur"@, false, reply_at(replies@, n as int));
    let ghost p3 = p2 + field_property(*def, "min"@, false, reply_at(replies@, n + 1));
    let ghost p4 = p3 + field_property(*def, "max"@, false, reply_at(replies@, n + 2));
    let ghost p5 = p4 + field_property(*def, "def"@, false, reply_at(replies@, n + 3));
    let ghost p6 = p5 + field_property(*def, "step"@, true, reply_at(replies@, n + 4));
    add_field(&mut props, def, "cur", false, reply_data(replies, n), Ghost(p1));
    add_field(&mut props, def, "min", false, reply_data(replies, n + 1), Ghost(p2));
    add_field(&mut props, def, "max", false, reply_data(replies, n + 2), Ghost(p3));
    add_field(&mut props, def, "def", false, reply_data(replies, n + 3), Ghost(p4));
    add_field(&mut props, def, "step", true, reply_data(replies, n + 4), Ghost(p5));
    assert(p6 =~= entry_properties(*vc, *def, replies@, from as int));
    let mut s = String::new();
    s.append("  \"");
    s.append(def.name);
    s.append("\": {");
    s.append(props.text.as_str());
    s.append("}");
    assert(s@ =~= entry_text(*vc, *def, replies@, from as int));
    s
}

/// The supported controls with current value and range, as JSON, from the
/// replies to the transfers of [`report_plan`]. A value that the camera does
/// not tell is left out.
pub fn controls_json(vc: &VcInfo, replies: &[Result<Vec<u8>, String>]) -> (r: String)
    ensures
        r@ == report_text(*vc, replies@),
{
    let all = controls();
    let mut list = Joined { text: String::new(), empty: true };
    let mut from: usize = 0;
    let mut i: usize = 0;
    proof {
        law_table_layout();
        assert(all@.take(0) =~= Seq::empty());
        assert(list.text@ =~= join(entries(*vc, all@.take(0), replies@), ",\n"@));
    }
    while i < all.len()
        invariant
            i <= all.len(),
            all@ == control_table(),
            all.len() == 17,
            forall|j: int| 0 <= j < all.len() ==> layout_ok(#[trigger] all@[j]),
            from == report_transfers(*vc, all@.take(i as int)).len(),
            from <= 6 * i,
            list.holds(entries(*vc, all@.take(i as int), replies@), ",\n"@),
        decreases all.len() - i,
    {
        let def = &all[i];
        proof {
            assert(all@.take(i + 1).drop_last() =~= all@.take(i as int));
            assert(all@.take(i + 1).last() == *def);
        }
        if supported(vc, def.unit, def.bit).is_some() {
            let text = entry(vc, def, replies, from);
            list.add_part(
                text.as_str(),
                ",\n",
                Ghost(entries(*vc, all@.take(i as int), replies@)),
            );
            from = from + 5;
            if auto_of(vc, def).is_some() {
                from = from + 1;
            }
        }
        i = i + 1;
    }
    assert(all@.take(i as int) =~= all@);
    let mut s = String::new();
    s.append("{\n");
    s.append(list.text.as_str());
    s.append("\n}\n");
    assert(s@ =~= report_text(*vc, replies@));
    s
}

/// The controls among `defs` that the camera supports.
pub open spec fn supported_controls(vc: VcInfo, defs: Seq<ControlDef>) -> Seq<ControlDef> {
    defs.filter(|def: ControlDef| supported_spec(vc, def.unit, def.bit) is Some)
}

/// Controls that the camera does not support take no transfers.
proof fn lemma_transfers_of_supported(vc: VcInfo, defs: Seq<ControlDef>)
    ensures
        report_transfers(vc, supported_controls(vc, defs)) == report_transfers(vc, defs),
    decreases defs.len(),
{
    reveal(Seq::filter);
    if defs.len() > 0 {
        let init = defs.drop_last();
        lemma_transfers_of_supported(vc, init);
        let sup = supported_controls(vc, defs);
        if supported_spec(vc, defs.last().unit, defs.last().bit) is Some {
            assert(sup.drop_last() =~= supported_controls(vc, init));
        } else {
            assert(report_transfers(vc, defs) =~= report_transfers(vc, init));
        }
    }
}

/// A report has one entry for each control that the camera supports, in the
/// order of the table, and none for any other. Each entry is made of the
/// replies to the transfers of its own control, which follow those of the
/// controls before it.
pub proof fn law_report_lists_supported_controls(
    vc: VcInfo,
    defs: Seq<ControlDef>,
    replies: Seq<Result<Vec<u8>, String>>,
)
    ensures
        entries(vc, defs, replies).len() == supported_controls(vc, defs).len(),
        forall|k: int|
            0 <= k < entries(vc, defs, replies).len() ==> #[trigger] entries(vc, defs, replies)[k]
                == entry_text(
                vc,
                supported_controls(vc, defs)[k],
                replies,
                report_transfers(vc, supported_controls(vc, defs).take(k)).len() as int,
            ),
    decreases defs.len(),
{
    reveal(Seq::filter);
    if defs.len() > 0 {
        let init = defs.drop_last();
        law_report_lists_supported_controls(vc, init, replies);
        lemma_transfers_of_supported(vc, init);
        let now = entries(vc, defs, replies);
        let before = entries(vc, init, replies);
        let sup = supported_controls(vc, defs);
        let sup_init = supported_controls(vc, init);
        assert forall|k: int| 0 <= k < now.len() implies #[trigger] now[k] == entry_text(
            vc,
            sup[k],
            replies,
            report_transfers(vc, sup.take(k)).len() as int,
        ) by {
            if k < before.len() {
                assert(now[k] == before[k]);
                assert(sup[k] == sup_init[k]);
                assert(sup.take(k) =~= sup_init.take(k));
            } else {
                assert(sup.take(k) =~= sup_init);
                assert(sup[k] == defs.last());
            }
        }
    }
}

/// A report changes nothing: all its transfers read, and each goes to an
/// entity that the camera has.
pub proof fn law_report_only_reads(vc: VcInfo, defs: Seq<ControlDef>)
    ensures
        forall|i: int|
            0 <= i < report_transfers(vc, defs).len() ==> {
                let t = #[trigger] report_transfers(vc, defs)[i];
                &&& t.request != REQ_SET_CUR
                &&& (vc.camera_terminal matches Some(e) && e.id == t.unit) || (
                vc.processing_unit matches Some(e) && e.id == t.unit)
            },
    decreases defs.len(),
{
    if defs.len() > 0 {
        law_report_only_reads(vc, defs.drop_last());
        let before = report_transfers(vc, defs.drop_last());
        let added = entry_transfers(vc, defs.last());
        assert forall|i: int| 0 <= i < report_transfers(vc, defs).len() implies {
            let t = #[trigger] report_transfers(vc, defs)[i];
            &&& t.request != REQ_SET_CUR
            &&& (vc.camera_terminal matches Some(e) && e.id == t.unit) || (
            vc.processing_unit matches Some(e) && e.id == t.unit)
        } by {
            if i < before.len() {
                assert(report_transfers(vc, defs)[i] == before[i]);
            } else {
                assert(report_transfers(vc, defs)[i] == added[i - before.len()]);
            }
        }
    }
}

} // verus!
