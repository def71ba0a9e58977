//! The controls that query parameters name.

use crate::text::same;
use vstd::prelude::*;

verus! {

/// Which entity a control belongs to.
#[derive(Debug, Clone, Copy, PartialEq, Eq, Structural)]
pub enum Unit {
    CameraTerminal,
    ProcessingUnit,
}

/// The companion "automatic" control of a value control.
#[derive(Debug, Clone, Copy, PartialEq, Eq, Structural)]
pub enum AutoKind {
    /// A one-byte boolean control (1 = automatic).
    Flag,
    /// `CT_AE_MODE_CONTROL`: a one-byte bitmap; 1 = manual, 2 = auto,
    /// 4 = shutter priority, 8 = aperture priority.
    AeMode,
}

#[derive(Debug, Clone, Copy, PartialEq, Eq, Structural)]
pub struct AutoControl {
    pub selector: u8,
    /// Bit in `bmControls`.
    pub bit: u8,
    pub kind: AutoKind,
}

/// One control reachable through a query parameter.
#[derive(Debug, Clone, Copy, PartialEq, Eq)]
pub struct ControlDef {
    /// Query parameter name.
    pub name: &'static str,
    pub unit: Unit,
    pub selector: u8,
    /// Bit in `bmControls`.
    pub bit: u8,
    /// Size of the value in bytes (the whole control unless `offset` is set).
    pub len: u8,
    /// Byte offset of this value inside a larger control (pan and tilt share
    /// `CT_PANTILT_ABSOLUTE_CONTROL`).
    pub offset: u8,
    /// Total size of the control's data.
    pub total: u8,
    pub signed: bool,
    pub auto: Option<AutoControl>,
}

/// A control that has its data to itself.
pub open spec fn simple(
    name: &'static str,
    unit: Unit,
    selector: u8,
    bit: u8,
    len: u8,
    signed: bool,
    auto: Option<AutoControl>,
) -> ControlDef {
    ControlDef { name, unit, selector, bit, len, offset: 0, total: len, signed, auto }
}

/// One of the two values that share the pan and tilt control.
pub open spec fn pan_tilt(name: &'static str, offset: u8) -> ControlDef {
    ControlDef {
        name,
        unit: Unit::CameraTerminal,
        selector: 0x0d,
        bit: 11,
        len: 4,
        offset,
        total: 8,
        signed: true,
        auto: None,
    }
}

/// Controls in the order `/controls` lists them. Selectors and bits are from
/// USB Video Class 1.5, tables 4-5 (camera terminal) and 4-11 (processing
/// unit) and the `bmControls` layouts in 3-6 and 3-8.
pub open spec fn control_table() -> Seq<ControlDef> {
    let ct = Unit::CameraTerminal;
    let pu = Unit::ProcessingUnit;
    let flag = |selector: u8, bit: u8|
        Some(AutoControl { selector, bit, kind: AutoKind::Flag });
    let ae = Some(AutoControl { selector: 0x02, bit: 1, kind: AutoKind::AeMode });
    seq![
        simple("exposure", ct, 0x04, 3, 4, false, ae),
        simple("focus", ct, 0x06, 5, 2, false, flag(0x08, 17)),
        simple("iris", ct, 0x09, 7, 2, false, None),
        simple("zoom", ct, 0x0b, 9, 2, false, None),
        pan_tilt("pan", 0),
        pan_tilt("tilt", 4),
        simple("roll", ct, 0x0f, 13, 2, true, None),
        simple("brightness", pu, 0x02, 0, 2, true, None),
        simple("contrast", pu, 0x03, 1, 2, false, None),
        simple("hue", pu, 0x06, 2, 2, true, flag(0x10, 11)),
        simple("saturation", pu, 0x07, 3, 2, false, None),
        simple("sharpness", pu, 0x08, 4, 2, false, None),
        simple("gamma", pu, 0x09, 5, 2, false, None),
        simple("wb", pu, 0x0a, 6, 2, false, flag(0x0b, 12)),
        simple("backlight", pu, 0x01, 8, 2, false, None),
        simple("gain", pu, 0x04, 9, 2, false, None),
        simple("powerline", pu, 0x05, 10, 1, false, None),
    ]
}

/// The controls of [`control_table`].
pub fn controls() -> (r: &'static [ControlDef])
    ensures
        r@ == control_table(),
{
    &[
        ControlDef {
            name: "exposure",
            unit: Unit::CameraTerminal,
            selector: 0x04,
            bit: 3,
            len: 4,
            offset: 0,
            total: 4,
            signed: false,
            auto: Some(AutoControl { selector: 0x02, bit: 1, kind: AutoKind::AeMode }),
        },
        ControlDef {
            name: "focus",
            unit: Unit::CameraTerminal,
            selector: 0x06,
            bit: 5,
            len: 2,
            offset: 0,
            total: 2,
            signed: false,
            auto: Some(AutoControl { selector: 0x08, bit: 17, kind: AutoKind::Flag }),
        },
        ControlDef {
            name: "iris",
            unit: Unit::CameraTerminal,
            selector: 0x09,
            bit: 7,
            len: 2,
            offset: 0,
            total: 2,
            signed: false,
            auto: None,
        },
        ControlDef {
            name: "zoom",
            unit: Unit::CameraTerminal,
            selector: 0x0b,
            bit: 9,
            len: 2,
            offset: 0,
            total: 2,
            signed: false,
            auto: None,
        },
        ControlDef {
            name: "pan",
            unit: Unit::CameraTerminal,
            selector: 0x0d,
            bit: 11,
            len: 4,
            offset: 0,
            total: 8,
            signed: true,
            auto: None,
        },
        ControlDef {
            name: "tilt",
            unit: Unit::CameraTerminal,
            selector: 0x0d,
            bit: 11,
            len: 4,
            offset: 4,
            total: 8,
            signed: true,
            auto: None,
        },
        ControlDef {
            name: "roll",
            unit: Unit::CameraTerminal,
            selector: 0x0f,
            bit: 13,
            len: 2,
            offset: 0,
            total: 2,
            signed: true,
            auto: None,
        },
        ControlDef {
            name: "brightness",
            unit: Unit::ProcessingUnit,
            selector: 0x02,
            bit: 0,
            len: 2,
            offset: 0,
            total: 2,
            signed: true,
            auto: None,
        },
        ControlDef {
            name: "contrast",
            unit: Unit::ProcessingUnit,
            selector: 0x03,
            bit: 1,
            len: 2,
            offset: 0,
            total: 2,
            signed: false,
            auto: None,
        },
        ControlDef {
            name: "hue",
            unit: Unit::ProcessingUnit,
            selector: 0x06,
            bit: 2,
            len: 2,
            offset: 0,
            total: 2,
            signed: true,
            auto: Some(AutoControl { selector: 0x10, bit: 11, kind: AutoKind::Flag }),
        },
        ControlDef {
            name: "saturation",
            unit: Unit::ProcessingUnit,
            selector: 0x07,
            bit: 3,
            len: 2,
            offset: 0,
            total: 2,
            signed: false,
            auto: None,
        },
        ControlDef {
            name: "sharpness",
            unit: Unit::ProcessingUnit,
            selector: 0x08,
            bit: 4,
            len: 2,
            offset: 0,
            total: 2,
            signed: false,
            auto: None,
        },
        ControlDef {
            name: "gamma",
            unit: Unit::ProcessingUnit,
            selector: 0x09,
            bit: 5,
            len: 2,
            offset: 0,
            total: 2,
            signed: false,
            auto: None,
        },
        ControlDef {
            name: "wb",
            unit: Unit::ProcessingUnit,
            selector: 0x0a,
            bit: 6,
            len: 2,
            offset: 0,
            total: 2,
            signed: false,
            auto: Some(AutoControl { selector: 0x0b, bit: 12, kind: AutoKind::Flag }),
        },
        ControlDef {
            name: "backlight",
            unit: Unit::ProcessingUnit,
            selector: 0x01,
            bit: 8,
            len: 2,
            offset: 0,
            total: 2,
            signed: false,
            auto: None,
        },
        ControlDef {
            name: "gain",
            unit: Unit::ProcessingUnit,
            selector: 0x04,
            bit: 9,
            len: 2,
            offset: 0,
            total: 2,
            signed: false,
            auto: None,
        },
        ControlDef {
            name: "powerline",
            unit: Unit::ProcessingUnit,
            selector: 0x05,
            bit: 10,
            len: 1,
            offset: 0,
            total: 1,
            signed: false,
            auto: None,
        },
    ]
}

/// The first of `defs` with the given name.
pub open spec fn find_in(defs: Seq<ControlDef>, name: Seq<char>) -> Option<ControlDef>
    decreases defs.len(),
{
    if defs.len() == 0 {
        None
    } else if defs[0].name@ == name {
        Some(defs[0])
    } else {
        find_in(defs.drop_first(), name)
    }
}

/// The control that a query parameter of this name sets.
pub open spec fn find_spec(name: Seq<char>) -> Option<ControlDef> {
    find_in(control_table(), name)
}

/// Looks up the control that a query parameter names.
pub fn find(name: &str) -> (r: Option<&'static ControlDef>)
    ensures
        match r {
            Some(def) => find_spec(name@) == Some(*def),
            None => find_spec(name@) is None,
        },
{
    let all = controls();
    let mut i: usize = 0;
    assert(all@.skip(0) =~= all@);
    while i < all.len()
        invariant
            i <= all.len(),
            all@ == control_table(),
            find_spec(name@) == find_in(all@.skip(i as int), name@),
        decreases all.len() - i,
    {
        assert(all@.skip(i as int)[0] == all@[i as int]);
        assert(all@.skip(i as int).drop_first() =~= all@.skip(i + 1));
        if same(all[i].name, name) {
            return Some(&all[i]);
        }
        i = i + 1;
    }
    None
}

/// Query parameter names that are not controls but are accepted on `/`.
pub open spec fn other_params() -> Seq<Seq<char>> {
    seq!["t"@, "_"@]
}

/// Whether a query parameter is accepted without being a control.
pub fn is_other_param(name: &str) -> (r: bool)
    ensures
        r == other_params().contains(name@),
{
    proof {
        assert(other_params()[0] == "t"@ && other_params()[1] == "_"@);
    }
    same(name, "t") || same(name, "_")
}

/// The layout of a control's data: the value lies inside the data, in one to
/// eight bytes, and the bits exist in a `bmControls` bitmap.
pub open spec fn layout_ok(def: ControlDef) -> bool {
    &&& 1 <= def.len <= 8
    &&& def.offset + def.len <= def.total
    &&& def.bit < 32
    &&& def.auto matches Some(auto) ==> auto.bit < 32
}

/// No two names of the table agree in both length and first letter.
proof fn lemma_control_names()
    ensures
        control_table().len() == 17,
        forall|i: int|
            0 <= i < 17 ==> (#[trigger] control_table()[i]).name@.len() >= 2,
        forall|i: int, j: int|
            0 <= i < j < 17 ==> #[trigger] control_table()[i].name@
                != #[trigger] control_table()[j].name@,
{
    reveal_strlit("exposure");
    reveal_strlit("focus");
    reveal_strlit("iris");
    reveal_strlit("zoom");
    reveal_strlit("pan");
    reveal_strlit("tilt");
    reveal_strlit("roll");
    reveal_strlit("brightness");
    reveal_strlit("contrast");
    reveal_strlit("hue");
    reveal_strlit("saturation");
    reveal_strlit("sharpness");
    reveal_strlit("gamma");
    reveal_strlit("wb");
    reveal_strlit("backlight");
    reveal_strlit("gain");
    reveal_strlit("powerline");
    let t = control_table();
    let keys: Seq<(int, char)> = seq![
        (8, 'e'),
        (5, 'f'),
        (4, 'i'),
        (4, 'z'),
        (3, 'p'),
        (4, 't'),
        (4, 'r'),
        (10, 'b'),
        (8, 'c'),
        (3, 'h'),
        (10, 's'),
        (9, 's'),
        (5, 'g'),
        (2, 'w'),
        (9, 'b'),
        (4, 'g'),
        (9, 'p'),
    ];
    assert forall|i: int| 0 <= i < 17 implies (#[trigger] t[i]).name@.len() == keys[i].0
        && t[i].name@[0] == keys[i].1 by {}
}

/// Every control of the table is found under its own name, and nothing else is.
pub proof fn law_find_by_name(name: Seq<char>)
    ensures
        forall|i: int|
            0 <= i < control_table().len() ==> find_spec(#[trigger] control_table()[i].name@)
                == Some(control_table()[i]),
        match find_spec(name) {
            Some(def) => control_table().contains(def) && def.name@ == name,
            None => forall|i: int|
                0 <= i < control_table().len() ==> #[trigger] control_table()[i].name@ != name,
        },
{
    lemma_control_names();
    let t = control_table();
    assert forall|i: int| 0 <= i < t.len() implies find_spec(#[trigger] t[i].name@) == Some(
        t[i],
    ) by {
        lemma_find_in(t, t[i].name@);
        let def = find_spec(t[i].name@)->0;
        let j = choose|j: int| 0 <= j < t.len() && t[j] == def;
        assert(t[i].name@ == t[j].name@);
    }
    lemma_find_in(t, name);
}

proof fn lemma_find_in(defs: Seq<ControlDef>, name: Seq<char>)
    ensures
        match find_in(defs, name) {
            Some(def) => defs.contains(def) && def.name@ == name,
            None => forall|i: int| 0 <= i < defs.len() ==> #[trigger] defs[i].name@ != name,
        },
    decreases defs.len(),
{
    if defs.len() > 0 {
        let rest = defs.drop_first();
        lemma_find_in(rest, name);
        match find_in(rest, name) {
            Some(def) => {
                if defs[0].name@ != name {
                    let j = choose|j: int| 0 <= j < rest.len() && rest[j] == def;
                    assert(defs[j + 1] == def);
                } else {
                    assert(defs.contains(defs[0]));
                }
            },
            None => {
                if defs[0].name@ == name {
                    assert(defs.contains(defs[0]));
                }
                assert forall|i: int| 0 <= i < defs.len() && defs[0].name@ != name implies
                    #[trigger] defs[i].name@ != name by {
                    if i > 0 {
                        assert(rest[i - 1] == defs[i]);
                        assert(rest[i - 1].name@ != name);
                    }
                }
            },
        }
    }
}

/// The table is sound: every control has its value inside its data and its
/// bits inside the bitmap, names no accepted parameter that is not a control,
/// and two controls that share a selector of one unit share the data without
/// overlapping in it.
pub proof fn law_table_layout()
    ensures
        forall|i: int| 0 <= i < control_table().len() ==> layout_ok(#[trigger] control_table()[i]),
        forall|i: int|
            0 <= i < control_table().len() ==> !other_params().contains(
                #[trigger] control_table()[i].name@,
            ),
        forall|i: int, j: int|
            0 <= i < j < control_table().len() && (#[trigger] control_table()[i]).unit == (
            #[trigger] control_table()[j]).unit && control_table()[i].selector
                == control_table()[j].selector ==> {
                &&& control_table()[i].total == control_table()[j].total
                &&& control_table()[i].offset + control_table()[i].len
                    <= control_table()[j].offset
            },
{
    lemma_control_names();
    reveal_strlit("t");
    reveal_strlit("_");
}

/// Whether a control stands at a place of the table and is what a name finds:
/// of the given unit, with selector and bit, with length, offset and total
/// size, signed or not, and with its automatic companion.
pub open spec fn is_control(
    place: int,
    name: Seq<char>,
    unit: Unit,
    selector_and_bit: (u8, u8),
    sizes: (u8, u8, u8),
    signed: bool,
    auto: Option<AutoControl>,
) -> bool {
    &&& find_spec(name) matches Some(def)
    &&& def == control_table()[place]
    &&& def.name@ == name
    &&& def.unit == unit
    &&& (def.selector, def.bit) == selector_and_bit
    &&& (def.len, def.offset, def.total) == sizes
    &&& def.signed == signed
    &&& def.auto == auto
}

/// The controls are those of USB Video Class 1.5, under these names and in
/// this order, and no other name finds any.
pub proof fn law_controls_of_the_standard(name: Seq<char>)
    ensures
        control_table().len() == 17,
        is_control(
            0,
            "exposure"@,
            Unit::CameraTerminal,
            (0x04, 3),
            (4, 0, 4),
            false,
            Some(AutoControl { selector: 0x02, bit: 1, kind: AutoKind::AeMode }),
        ),
        is_control(
            1,
            "focus"@,
            Unit::CameraTerminal,
            (0x06, 5),
            (2, 0, 2),
            false,
            Some(AutoControl { selector: 0x08, bit: 17, kind: AutoKind::Flag }),
        ),
        is_control(
            2,
            "iris"@,
            Unit::CameraTerminal,
            (0x09, 7),
            (2, 0, 2),
            false,
            None,
        ),
        is_control(
            3,
            "zoom"@,
            Unit::CameraTerminal,
            (0x0b, 9),
            (2, 0, 2),
            false,
            None,
        ),
        is_control(
            4,
            "pan"@,
            Unit::CameraTerminal,
            (0x0d, 11),
            (4, 0, 8),
            true,
            None,
        ),
        is_control(
            5,
            "tilt"@,
            Unit::CameraTerminal,
            (0x0d, 11),
            (4, 4, 8),
            true,
            None,
        ),
        is_control(
            6,
            "roll"@,
            Unit::CameraTerminal,
            (0x0f, 13),
            (2, 0, 2),
            true,
            None,
        ),
        is_control(
            7,
            "brightness"@,
            Unit::ProcessingUnit,
            (0x02, 0),
            (2, 0, 2),
            true,
            None,
        ),
        is_control(
            8,
            "contrast"@,
            Unit::ProcessingUnit,
            (0x03, 1),
            (2, 0, 2),
            false,
            None,
        ),
        is_control(
            9,
            "hue"@,
            Unit::ProcessingUnit,
            (0x06, 2),
            (2, 0, 2),
            true,
            Some(AutoControl { selector: 0x10, bit: 11, kind: AutoKind::Flag }),
        ),
        is_control(
            10,
            "saturation"@,
            Unit::ProcessingUnit,
            (0x07, 3),
            (2, 0, 2),
            false,
            None,
        ),
        is_control(
            11,
            "sharpness"@,
            Unit::ProcessingUnit,
            (0x08, 4),
            (2, 0, 2),
            false,
            None,
        ),
        is_control(
            12,
            "gamma"@,
            Unit::ProcessingUnit,
            (0x09, 5),
            (2, 0, 2),
            false,
            None,
        ),
        is_control(
            13,
            "wb"@,
            Unit::ProcessingUnit,
            (0x0a, 6),
            (2, 0, 2),
            false,
            Some(AutoControl { selector: 0x0b, bit: 12, kind: AutoKind::Flag }),
        ),
        is_control(
            14,
            "backlight"@,
            Unit::ProcessingUnit,
            (0x01, 8),
            (2, 0, 2),
            false,
            None,
        ),
        is_control(
            15,
            "gain"@,
            Unit::ProcessingUnit,
            (0x04, 9),
            (2, 0, 2),
            false,
            None,
        ),
        is_control(
            16,
            "powerline"@,
            Unit::ProcessingUnit,
            (0x05, 10),
            (1, 0, 1),
            false,
            None,
        ),
        find_spec(name) is Some ==> seq![
            "exposure"@,
            "focus"@,
            "iris"@,
            "zoom"@,
            "pan"@,
            "tilt"@,
            "roll"@,
            "brightness"@,
            "contrast"@,
            "hue"@,
            "saturation"@,
            "sharpness"@,
            "gamma"@,
            "wb"@,
            "backlight"@,
            "gain"@,
            "powerline"@,
        ].contains(name),
{
    law_find_by_name(name);
    let t = control_table();
    assert forall|i: int| 0 <= i < t.len() implies find_spec(#[trigger] t[i].name@) == Some(
        t[i],
    ) by {}
    let names = seq![
        "exposure"@,
        "focus"@,
        "iris"@,
        "zoom"@,
        "pan"@,
        "tilt"@,
        "roll"@,
        "brightness"@,
        "contrast"@,
        "hue"@,
        "saturation"@,
        "sharpness"@,
        "gamma"@,
        "wb"@,
        "backlight"@,
        "gain"@,
        "powerline"@,
    ];
    assert forall|i: int| 0 <= i < 17 implies #[trigger] t[i].name@ == names[i] by {}
    assert(find_spec(t[0].name@) == Some(t[0]) && t[0].name@ == "exposure"@);
    assert(find_spec(t[1].name@) == Some(t[1]) && t[1].name@ == "focus"@);
    assert(find_spec(t[2].name@) == Some(t[2]) && t[2].name@ == "iris"@);
    assert(find_spec(t[3].name@) == Some(t[3]) && t[3].name@ == "zoom"@);
    assert(find_spec(t[4].name@) == Some(t[4]) && t[4].name@ == "pan"@);
    assert(find_spec(t[5].name@) == Some(t[5]) && t[5].name@ == "tilt"@);
    assert(find_spec(t[6].name@) == Some(t[6]) && t[6].name@ == "roll"@);
    assert(find_spec(t[7].name@) == Some(t[7]) && t[7].name@ == "brightness"@);
    assert(find_spec(t[8].name@) == Some(t[8]) && t[8].name@ == "contrast"@);
    assert(find_spec(t[9].name@) == Some(t[9]) && t[9].name@ == "hue"@);
    assert(find_spec(t[10].name@) == Some(t[10]) && t[10].name@ == "saturation"@);
    assert(find_spec(t[11].name@) == Some(t[11]) && t[11].name@ == "sharpness"@);
    assert(find_spec(t[12].name@) == Some(t[12]) && t[12].name@ == "gamma"@);
    assert(find_spec(t[13].name@) == Some(t[13]) && t[13].name@ == "wb"@);
    assert(find_spec(t[14].name@) == Some(t[14]) && t[14].name@ == "backlight"@);
    assert(find_spec(t[15].name@) == Some(t[15]) && t[15].name@ == "gain"@);
    assert(find_spec(t[16].name@) == Some(t[16]) && t[16].name@ == "powerline"@);
    if let Some(def) = find_spec(name) {
        let i = choose|i: int| 0 <= i < t.len() && t[i] == def;
        assert(t[i].name@ == names[i]);
    }
}

/// Exactly `t` and `_` are accepted without being controls.
pub proof fn law_other_parameters(name: Seq<char>)
    ensures
        other_params().contains(name) <==> name == "t"@ || name == "_"@,
{
    assert(other_params()[0] == "t"@ && other_params()[1] == "_"@);
}

} // verus!
