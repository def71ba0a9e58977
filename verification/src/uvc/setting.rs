//! Interpreting query parameters as camera settings.

use crate::text::{
    append_int, dec_int, dec_nat, join, law_decimal_is_read_back, parse_i64, same, text_i64,
};
use crate::uvc::table::{
    control_table, controls, find, find_spec, law_controls_of_the_standard, law_find_by_name,
    law_table_layout, layout_ok, ControlDef,
};
use crate::uvc::value::{
    decode_spec, display_spec, encode_spec, law_written_value_is_read_back, pow256, value_max,
    value_min,
};
use vstd::prelude::*;
use vstd::string::*;

verus! {

/// A requested value for a control.
#[derive(Debug, Clone, Copy, PartialEq, Eq, Structural)]
pub enum Setting {
    Auto,
    Value(i64),
}

/// The names of the controls in the order of the table.
pub open spec fn control_names() -> Seq<Seq<char>> {
    control_table().map_values(|def: ControlDef| def.name@)
}

/// `auto` in any mixture of upper and lower case.
pub open spec fn is_auto(value: Seq<char>) -> bool {
    &&& value.len() == 4
    &&& value[0] == 'a' || value[0] == 'A'
    &&& value[1] == 'u' || value[1] == 'U'
    &&& value[2] == 't' || value[2] == 'T'
    &&& value[3] == 'o' || value[3] == 'O'
}

pub open spec fn unknown_parameter(name: Seq<char>) -> Seq<char> {
    "unknown parameter '"@ + name + "'; known: "@ + join(control_names(), ", "@)
}

pub open spec fn no_automatic_mode(name: Seq<char>) -> Seq<char> {
    name + " has no automatic mode"@
}

pub open spec fn not_a_number(name: Seq<char>) -> Seq<char> {
    name + " must be a number or 'auto'"@
}

pub open spec fn out_of_range(name: Seq<char>, lo: int, hi: int) -> Seq<char> {
    name + " must be between "@ + dec_int(lo) + " and "@ + dec_int(hi)
}

/// The raw value that a parameter asks for: the code of the mains frequency
/// for `powerline`, a number for any other control.
pub open spec fn raw_value(name: Seq<char>, value: Seq<char>) -> Result<i64, Seq<char>> {
    if name == "powerline"@ {
        if value == "0"@ || value == "off"@ {
            Ok(0)
        } else if value == "50"@ {
            Ok(1)
        } else if value == "60"@ {
            Ok(2)
        } else {
            Err("powerline must be 0, 50 or 60"@)
        }
    } else {
        match text_i64(value) {
            Some(v) => Ok(v),
            None => Err(not_a_number(name)),
        }
    }
}

/// What one query parameter asks for, or the message that refuses it.
pub open spec fn parse_setting_spec(name: Seq<char>, value: Seq<char>) -> Result<
    (ControlDef, Setting),
    Seq<char>,
> {
    match find_spec(name) {
        None => Err(unknown_parameter(name)),
        Some(def) => if is_auto(value) {
            if def.auto is None {
                Err(no_automatic_mode(name))
            } else {
                Ok((def, Setting::Auto))
            }
        } else {
            match raw_value(name, value) {
                Err(e) => Err(e),
                Ok(v) => if value_min(def) <= v <= value_max(def) {
                    Ok((def, Setting::Value(v)))
                } else {
                    Err(out_of_range(name, value_min(def), value_max(def)))
                },
            }
        },
    }
}

/// The names of all controls, separated by commas.
fn known_names() -> (s: String)
    ensures
        s@ == join(control_names(), ", "@),
{
    let all = controls();
    let mut out = String::new();
    let mut i: usize = 0;
    let ghost names = control_names();
    assert(names.take(0) =~= Seq::empty());
    while i < all.len()
        invariant
            i <= all.len(),
            all@ == control_table(),
            names == control_names(),
            out@ == join(names.take(i as int), ", "@),
        decreases all.len() - i,
    {
        assert(names.take(i + 1).drop_last() =~= names.take(i as int));
        assert(names.take(i + 1).last() == all@[i as int].name@);
        if i > 0 {
            out.append(", ");
        }
        out.append(all[i].name);
        assert(out@ =~= join(names.take(i + 1), ", "@));
        i = i + 1;
    }
    assert(names.take(all.len() as int) =~= names);
    out
}

/// Compares with `auto`, ignoring case.
fn reads_auto(value: &str) -> (r: bool)
    ensures
        r == is_auto(value@),
{
    if !value.is_ascii() {
        return false;
    }
    let b = value.as_bytes();
    assert(b@ =~= Seq::new(value@.len(), |i: int| value@[i] as u8));
    if b.len() != 4 {
        return false;
    }
    assert(value@[0] as u8 == b@[0] && value@[1] as u8 == b@[1] && value@[2] as u8 == b@[2]
        && value@[3] as u8 == b@[3]);
    (b[0] == 97 || b[0] == 65) && (b[1] == 117 || b[1] == 85) && (b[2] == 116 || b[2] == 84) && (
    b[3] == 111 || b[3] == 79)
}

/// The smallest and the largest value that a control of this size can hold.
fn value_range(def: &ControlDef) -> (r: (i64, i64))
    requires
        layout_ok(*def),
        def.len <= 4,
    ensures
        r.0 == value_min(*def),
        r.1 == value_max(*def),
{
    proof {
        reveal_with_fuel(pow256, 5);
    }
    let count: i64 = match def.len {
        1 => 0x100,
        2 => 0x1_0000,
        3 => 0x100_0000,
        _ => 0x1_0000_0000,
    };
    if def.signed {
        (-(count / 2), count / 2 - 1)
    } else {
        (0, count - 1)
    }
}

/// Interprets one query parameter. `powerline` takes the mains frequency
/// (`0`, `50`, `60`) instead of the raw code.
pub fn parse_setting(name: &str, value: &str) -> (r: Result<
    (&'static ControlDef, Setting),
    String,
>)
    ensures
        match r {
            Ok((def, setting)) => parse_setting_spec(name@, value@) == Ok::<
                (ControlDef, Setting),
                Seq<char>,
            >((*def, setting)),
            Err(e) => parse_setting_spec(name@, value@) == Err::<(ControlDef, Setting), Seq<char>>(
                e@,
            ),
        },
{
    let def = match find(name) {
        Some(def) => def,
        None => {
            let mut e = String::new();
            e.append("unknown parameter '");
            e.append(name);
            e.append("'; known: ");
            let names = known_names();
            e.append(names.as_str());
            assert(e@ =~= unknown_parameter(name@));
            return Err(e);
        },
    };
    if reads_auto(value) {
        if def.auto.is_none() {
            let mut e = String::new();
            e.append(name);
            e.append(" has no automatic mode");
            assert(e@ =~= no_automatic_mode(name@));
            return Err(e);
        }
        return Ok((def, Setting::Auto));
    }
    let v: i64 = if same(name, "powerline") {
        if same(value, "0") || same(value, "off") {
            0
        } else if same(value, "50") {
            1
        } else if same(value, "60") {
            2
        } else {
            let mut e = String::new();
            e.append("powerline must be 0, 50 or 60");
            assert(e@ =~= "powerline must be 0, 50 or 60"@);
            return Err(e);
        }
    } else {
        match parse_i64(value) {
            Some(v) => v,
            None => {
                let mut e = String::new();
                e.append(name);
                e.append(" must be a number or 'auto'");
                assert(e@ =~= not_a_number(name@));
                return Err(e);
            },
        }
    };
    proof {
        lemma_found(name@);
    }
    let (lo, hi) = value_range(def);
    if v < lo || v > hi {
        let mut e = String::new();
        e.append(name);
        e.append(" must be between ");
        append_int(&mut e, lo);
        e.append(" and ");
        append_int(&mut e, hi);
        assert(e@ =~= out_of_range(name@, lo as int, hi as int));
        return Err(e);
    }
    Ok((def, Setting::Value(v)))
}

/// Every control of the table holds its value in at most four bytes.
proof fn lemma_found(name: Seq<char>)
    ensures
        find_spec(name) matches Some(def) ==> layout_ok(def) && def.len <= 4 && def.name@ == name,
{
    law_find_by_name(name);
    law_table_layout();
    if let Some(def) = find_spec(name) {
        let i = choose|i: int| 0 <= i < control_table().len() && control_table()[i] == def;
        assert(layout_ok(control_table()[i]));
        assert forall|i: int| 0 <= i < control_table().len() implies (
        #[trigger] control_table()[i]).len <= 4 by {}
    }
}

/// A value that was accepted fits the control: written into the control's
/// data it is read back.
pub proof fn law_accepted_value_fits(name: Seq<char>, value: Seq<char>, data: Seq<u8>)
    ensures
        match parse_setting_spec(name, value) {
            Ok((def, Setting::Value(v))) => {
                &&& def.name@ == name
                &&& layout_ok(def)
                &&& value_min(def) <= v <= value_max(def)
                &&& data.len() == def.total ==> decode_spec(
                    def,
                    encode_spec(def, v as int, data),
                ) == Some(v)
            },
            Ok((def, Setting::Auto)) => def.name@ == name && layout_ok(def) && def.auto is Some,
            Err(_) => true,
        },
{
    lemma_found(name);
    if let Ok((def, Setting::Value(v))) = parse_setting_spec(name, value) {
        if data.len() == def.total {
            law_written_value_is_read_back(def, v, data);
        }
    }
}

/// The value that `/controls` shows for a control is one that the query
/// parameter of that control takes, and it means the same raw value.
pub proof fn law_shown_value_is_accepted(i: int, raw: i64)
    requires
        0 <= i < control_table().len(),
        value_min(control_table()[i]) <= raw <= value_max(control_table()[i]),
        control_table()[i].name@ == "powerline"@ ==> 0 <= raw <= 2,
    ensures
        parse_setting_spec(
            control_table()[i].name@,
            dec_int(display_spec(control_table()[i], raw) as int),
        ) == Ok::<(ControlDef, Setting), Seq<char>>((control_table()[i], Setting::Value(raw))),
{
    let def = control_table()[i];
    let shown = display_spec(def, raw);
    let text = dec_int(shown as int);
    law_find_by_name(def.name@);
    law_decimal_is_read_back(shown);
    assert(!is_auto(text)) by {
        if is_auto(text) {
            assert(text_i64(text) is None);
        }
    }
    if def.name@ == "powerline"@ {
        reveal_strlit("0");
        reveal_strlit("off");
        reveal_strlit("50");
        reveal_strlit("60");
        reveal_with_fuel(dec_nat, 3);
        if raw == 0 {
            assert(text =~= "0"@);
        } else if raw == 1 {
            assert(text =~= "50"@);
            assert(text.len() == 2);
        } else {
            assert(text =~= "60"@);
            assert(text.len() == 2 && text[0] == '6');
        }
    }
}

/// A character in lower case.
pub open spec fn lower(c: char) -> int {
    if 65 <= c as int <= 90 {
        c as int + 32
    } else {
        c as int
    }
}

/// The word `auto`, in any mixture of upper and lower case.
pub open spec fn says_auto(value: Seq<char>) -> bool {
    &&& value.len() == 4
    &&& lower(value[0]) == 'a' as int
    &&& lower(value[1]) == 'u' as int
    &&& lower(value[2]) == 't' as int
    &&& lower(value[3]) == 'o' as int
}

/// The smallest and the largest number of so many bytes.
pub open spec fn limits(len: u8, signed: bool) -> (int, int) {
    match (len, signed) {
        (1, false) => (0, 255),
        (2, false) => (0, 65535),
        (2, true) => (-32768, 32767),
        (4, false) => (0, 4294967295),
        (4, true) => (-2147483648, 2147483647),
        _ => (0, 0),
    }
}

/// What a query parameter asks for. `auto` is taken by controls with an
/// automatic mode; `powerline` takes a mains frequency; any other control takes
/// every number that its bytes can hold, and nothing else.
pub proof fn law_parameter_values(name: Seq<char>, value: Seq<char>)
    ensures
        find_spec(name) is None ==> parse_setting_spec(name, value) == Err::<
            (ControlDef, Setting),
            Seq<char>,
        >(
            "unknown parameter '"@ + name + "'; known: "@ + join(
                seq![
                    "exposure"@,
                    "focus"@,
                    "iris"@,
                    "zoom"@,
                    "pan"@,
                    "tilt"@,
                    "roll"@,
                    "brightness"@,
                    "contrast"@,
                    "hue"@,
                    "saturation"@,
                    "sharpness"@,
                    "gamma"@,
                    "wb"@,
                    "backlight"@,
                    "gain"@,
                    "powerline"@,
                ],
                ", "@,
            ),
        ),
        find_spec(name) matches Some(def) ==> says_auto(value) ==> parse_setting_spec(name, value)
            == (if def.auto is Some {
            Ok((def, Setting::Auto))
        } else {
            Err(name + " has no automatic mode"@)
        }),
        find_spec(name) matches Some(def) ==> !says_auto(value) && name == "powerline"@
            ==> parse_setting_spec(name, value) == (if value == "0"@ || value == "off"@ {
            Ok((def, Setting::Value(0)))
        } else if value == "50"@ {
            Ok((def, Setting::Value(1)))
        } else if value == "60"@ {
            Ok((def, Setting::Value(2)))
        } else {
            Err("powerline must be 0, 50 or 60"@)
        }),
        find_spec(name) matches Some(def) ==> !says_auto(value) && name != "powerline"@
            ==> parse_setting_spec(name, value) == (match text_i64(value) {
            None => Err(name + " must be a number or 'auto'"@),
            Some(v) => {
                let (lo, hi) = limits(def.len, def.signed);
                if lo <= v <= hi {
                    Ok((def, Setting::Value(v)))
                } else {
                    Err(name + " must be between "@ + dec_int(lo) + " and "@ + dec_int(hi))
                }
            },
        }),
{
    law_controls_of_the_standard(name);
    law_find_by_name(name);
    reveal_with_fuel(pow256, 5);
    let names = seq![
        "exposure"@,
        "focus"@,
        "iris"@,
        "zoom"@,
        "pan"@,
        "tilt"@,
        "roll"@,
        "brightness"@,
        "contrast"@,
        "hue"@,
        "saturation"@,
        "sharpness"@,
        "gamma"@,
        "wb"@,
        "backlight"@,
        "gain"@,
        "powerline"@,
    ];
    let t = control_table();
    assert forall|i: int| 0 <= i < t.len() implies #[trigger] t[i].name@ == names[i] by {}
    assert(control_names() =~= names);
    assert(is_auto(value) == says_auto(value));
    if let Some(def) = find_spec(name) {
        let i = choose|i: int| 0 <= i < t.len() && t[i] == def;
        assert forall|j: int| 0 <= j < t.len() implies {
            let d = #[trigger] t[j];
            value_min(d) == limits(d.len, d.signed).0 && value_max(d) == limits(d.len, d.signed).1
        } by {}
        assert(t[i] == def);
        if name == "powerline"@ {
            assert(def.len == 1);
        }
    }
}

} // verus!
