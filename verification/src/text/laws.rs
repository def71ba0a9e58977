//! What numbers look like in text, digit by digit.

use crate::text::{
    all_digits, dec_int, dec_nat, digits_value, hex_byte, join, pair_texts, text_i64, text_value,
    texts,
};
use vstd::prelude::*;
use vstd::string::*;

verus! {

/// A decimal digit.
pub open spec fn is_digit(c: char) -> bool {
    48 <= c as int <= 57
}

/// A number below ten is one digit; the digits of any other number are those
/// of its tens, followed by that of its ones. A negative number has a minus
/// sign in front.
pub proof fn law_decimal_digits(n: nat, d: nat)
    requires
        d < 10,
    ensures
        dec_nat(d) == seq![(48 + d) as char],
        n > 0 ==> dec_nat(10 * n + d) == dec_nat(n).push((48 + d) as char),
        dec_int(n as int) == dec_nat(n),
        n > 0 ==> dec_int(-(n as int)) == seq!['-'] + dec_nat(n),
{
}

/// A byte in hexadecimal is `0x` and two digits, the high one first.
pub proof fn law_hex_digits(h: u8, l: u8)
    requires
        h < 16,
        l < 16,
    ensures
        hex_byte((16 * h + l) as u8) == "0x"@ + seq![
            "0123456789abcdef"@[h as int],
            "0123456789abcdef"@[l as int],
        ],
{
    reveal_strlit("0x");
    reveal_strlit("0123456789abcdef");
    let b = (16 * h + l) as u8;
    assert(b / 16 == h && b % 16 == l);
    assert(hex_byte(b) =~= "0x"@ + seq![
        "0123456789abcdef"@[h as int],
        "0123456789abcdef"@[l as int],
    ]);
}

/// Between neighbours of a list stands the separator, and nowhere else.
pub proof fn law_join(list: Seq<Seq<char>>, last: Seq<char>, sep: Seq<char>)
    ensures
        join(Seq::empty(), sep) == Seq::<char>::empty(),
        join(seq![last], sep) == last,
        list.len() > 0 ==> join(list.push(last), sep) == join(list, sep) + sep + last,
{
    assert(list.push(last).drop_last() =~= list);
}

/// One digit more makes a number ten times as large and adds the digit, as
/// long as it fits 64 bits; a plus sign changes nothing, a minus sign turns
/// the number round.
pub proof fn law_digits_are_read(s: Seq<char>, c: char)
    requires
        is_digit(c),
        forall|i: int| 0 <= i < s.len() ==> is_digit(#[trigger] s[i]),
    ensures
        text_i64(seq![c]) == Some((c as int - 48) as i64),
        s.len() > 0 ==> text_i64(s.push(c)) == (match text_i64(s) {
            Some(v) => if 10 * v + (c as int - 48) <= i64::MAX {
                Some((10 * v + (c as int - 48)) as i64)
            } else {
                None
            },
            None => None,
        }),
        s.len() > 0 ==> text_i64(seq!['+'] + s) == text_i64(s),
        s.len() > 0 ==> (text_i64(s) matches Some(v) ==> text_i64(seq!['-'] + s) == Some(
            (-v) as i64,
        )),
{
    let one = seq![c];
    assert(one.drop_last() =~= Seq::empty());
    assert(digits_value(Seq::empty()) == 0);
    assert(digits_value(one) == c as int - 48);
    assert(all_digits(one));
    if s.len() > 0 {
        assert(all_digits(s));
        let more = s.push(c);
        assert(more.drop_last() =~= s);
        assert forall|i: int| 0 <= i < more.len() implies '0' <= #[trigger] more[i] <= '9' by {
            if i < s.len() {
                assert(is_digit(s[i]));
            }
        }
        assert(is_digit(s[0]));
        assert(more[0] == s[0]);
        assert(text_value(s) == Some(digits_value(s) as int));
        assert(text_value(more) == Some(digits_value(more) as int));
        let plus = seq!['+'] + s;
        let minus = seq!['-'] + s;
        assert(plus.drop_first() =~= s);
        assert(minus.drop_first() =~= s);
        assert(plus[0] == '+' && minus[0] == '-');
    }
}

/// With a minus sign in front, one digit more makes a number ten times as far
/// below zero and takes the digit off, down to the lowest that fits 64 bits.
pub proof fn law_negative_digits_are_read(s: Seq<char>, c: char)
    requires
        is_digit(c),
        forall|i: int| 0 <= i < s.len() ==> is_digit(#[trigger] s[i]),
    ensures
        text_i64(seq!['-', c]) == Some((48 - c as int) as i64),
        s.len() > 0 ==> text_i64(seq!['-'] + s.push(c)) == (match text_i64(seq!['-'] + s) {
            Some(v) => if 10 * v - (c as int - 48) >= i64::MIN {
                Some((10 * v - (c as int - 48)) as i64)
            } else {
                None
            },
            None => None,
        }),
{
    reveal_with_fuel(digits_value, 2);
    let one = seq!['-', c];
    assert(one.drop_first() =~= seq![c]);
    assert(seq![c].drop_last() =~= Seq::empty());
    assert(all_digits(seq![c]));
    if s.len() > 0 {
        let more = s.push(c);
        assert(more.drop_last() =~= s);
        assert forall|i: int| 0 <= i < more.len() implies '0' <= #[trigger] more[i] <= '9' by {
            if i < s.len() {
                assert(is_digit(s[i]));
            }
        }
        assert forall|i: int| 0 <= i < s.len() implies '0' <= #[trigger] s[i] <= '9' by {
            assert(is_digit(s[i]));
        }
        assert((seq!['-'] + s).drop_first() =~= s);
        assert((seq!['-'] + more).drop_first() =~= more);
    }
}

/// The characters of a list of texts are those of each text, in order.
pub proof fn law_texts(v: Seq<String>, pairs: Seq<(String, String)>, i: int)
    ensures
        texts(v).len() == v.len(),
        0 <= i < v.len() ==> texts(v)[i] == v[i]@,
        pair_texts(pairs).len() == pairs.len(),
        0 <= i < pairs.len() ==> pair_texts(pairs)[i] == (pairs[i].0@, pairs[i].1@),
{
}

/// A text without digits, or with any character that is neither a digit nor a
/// sign in front of them, is no number.
pub proof fn law_other_texts_are_no_numbers(s: Seq<char>, i: int)
    ensures
        s.len() == 0 ==> text_i64(s) is None,
        s.len() == 1 && !is_digit(s[0]) ==> text_i64(s) is None,
        0 <= i < s.len() && !is_digit(s[i]) && !(i == 0 && (s[0] == '+' || s[0] == '-'))
            ==> text_i64(s) is None,
{
    if 0 <= i < s.len() && !is_digit(s[i]) {
        let t = s.drop_first();
        if i > 0 {
            assert(t[i - 1] == s[i]);
        }
        assert(all_digits(s) ==> '0' <= s[i] <= '9');
        assert(i > 0 && all_digits(t) ==> '0' <= t[i - 1] <= '9');
    }
    if s.len() == 1 {
        assert(all_digits(s) ==> '0' <= s[0] <= '9');
    }
}

} // verus!
