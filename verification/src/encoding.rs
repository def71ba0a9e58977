//! UTF-8 text and the bytes it is sent in.

use crate::search::{
    equal_to, fields, first_from, first_of, lemma_first_from_is, lemma_first_from_range,
};
use vstd::prelude::*;
use vstd::string::*;
use vstd::utf8::*;

verus! {

/// Calls `std::str::from_utf8`: bytes that are valid UTF-8 become the text
/// they encode, any other bytes are refused.
#[verifier::external_body]
pub(crate) fn from_utf8(bytes: &[u8]) -> (r: Option<&str>)
    ensures
        match r {
            Some(s) => s.spec_bytes() == bytes@,
            None => !valid_utf8(bytes@),
        },
{
    std::str::from_utf8(bytes).ok()
}

/// The text that `String::from_utf8_lossy` makes of bytes.
pub uninterp spec fn utf8_lossy(bytes: Seq<u8>) -> Seq<char>;

/// Calls `String::from_utf8_lossy`: the text depends on the bytes alone, and
/// bytes that are valid UTF-8 become the text they encode. Which characters
/// stand for invalid bytes is left to that function.
#[verifier::external_body]
pub(crate) fn from_utf8_lossy(bytes: &[u8]) -> (r: String)
    ensures
        r@ == utf8_lossy(bytes@),
        valid_utf8(bytes@) ==> encode_utf8(r@) == bytes@,
{
    String::from_utf8_lossy(bytes).into_owned()
}

/// A character is one byte where it is ASCII, and bytes beyond ASCII where it
/// is not.
pub proof fn lemma_encode_char(c: char)
    ensures
        (c as u32) < 0x80 ==> encode_scalar(c as u32) == seq![c as u8],
        (c as u32) >= 0x80 ==> forall|i: int|
            0 <= i < encode_scalar(c as u32).len() ==> #[trigger] encode_scalar(c as u32)[i]
                >= 0x80,
        encode_scalar(c as u32).len() >= 1,
        0 <= c as int == c as u32,
{
    let s = c as u32;
    assert(s < 0x80 ==> (s & 0x7f) as u8 == s as u8) by (bit_vector);
    assert(0xC0u8 | ((s >> 6) & 0x1F) as u8 >= 0x80) by (bit_vector);
    assert(0xE0u8 | ((s >> 12) & 0x0F) as u8 >= 0x80) by (bit_vector);
    assert(0xF0u8 | ((s >> 18) & 0x7) as u8 >= 0x80) by (bit_vector);
    assert(0x80u8 | (s & 0x3F) as u8 >= 0x80) by (bit_vector);
    assert(0x80u8 | ((s >> 6) & 0x3F) as u8 >= 0x80) by (bit_vector);
    assert(0x80u8 | ((s >> 12) & 0x3F) as u8 >= 0x80) by (bit_vector);
}

pub proof fn lemma_encode_concat(a: Seq<char>, b: Seq<char>)
    ensures
        encode_utf8(a + b) == encode_utf8(a) + encode_utf8(b),
    decreases a.len(),
{
    if a.len() == 0 {
        assert(a + b =~= b);
        assert(encode_utf8(a) + encode_utf8(b) =~= encode_utf8(b));
    } else {
        lemma_encode_concat(a.drop_first(), b);
        assert((a + b).drop_first() =~= a.drop_first() + b);
        assert(encode_utf8(a + b) =~= encode_utf8(a) + encode_utf8(b));
    }
}

/// Encoding is one to one.
pub proof fn lemma_encode_injective(a: Seq<char>, b: Seq<char>)
    requires
        encode_utf8(a) == encode_utf8(b),
    ensures
        a == b,
{
    encode_utf8_decode_utf8(a);
    encode_utf8_decode_utf8(b);
}

/// A property of bytes that no byte beyond ASCII has, and the same property
/// of characters.
pub open spec fn ascii_property(pc: spec_fn(char) -> bool, pb: spec_fn(u8) -> bool) -> bool {
    &&& forall|b: u8| #[trigger] pb(b) ==> b < 0x80
    &&& forall|c: char| #[trigger] pc(c) ==> 0 <= c as int <= 0x7f
    &&& forall|c: char| 0 <= c as int <= 0x7f ==> #[trigger] pc(c) == pb(c as u8)
}

/// The first ASCII byte with a property is the first character with it.
pub proof fn lemma_first_ascii(t: Seq<char>, pc: spec_fn(char) -> bool, pb: spec_fn(u8) -> bool)
    requires
        ascii_property(pc, pb),
    ensures
        ({
            let k = first_from(t, pc, 0);
            let i = first_from(encode_utf8(t), pb, 0);
            &&& 0 <= k <= t.len()
            &&& i == encode_utf8(t.take(k)).len()
            &&& encode_utf8(t).take(i) == encode_utf8(t.take(k))
            &&& encode_utf8(t).skip(i) == encode_utf8(t.skip(k))
            &&& k < t.len() <==> i < encode_utf8(t).len()
            &&& k < t.len() ==> encode_utf8(t).skip(i + 1) == encode_utf8(t.skip(k + 1))
            &&& k == 0 <==> i == 0
        }),
{
    let k = first_from(t, pc, 0);
    lemma_first_from_range(t, pc, 0);
    let a = t.take(k);
    let b = t.skip(k);
    let i = encode_utf8(a).len() as int;
    assert(t =~= a + b);
    lemma_encode_concat(a, b);
    assert forall|j: int| 0 <= j < a.len() implies !pc(#[trigger] a[j]) by {
        assert(t[j] == a[j]);
    }
    lemma_none_encoded(a, pc, pb);
    let bytes = encode_utf8(t);
    assert forall|j: int| 0 <= j < i implies !pb(#[trigger] bytes[j]) by {
        assert(bytes[j] == encode_utf8(a)[j]);
    }
    if k < t.len() {
        lemma_encode_char(t[k]);
        assert(b[0] == t[k]);
        assert(b.drop_first() =~= t.skip(k + 1));
        assert(bytes[i] == t[k] as u8);
        assert(bytes.skip(i + 1) =~= encode_utf8(b.drop_first()));
    }
    if k > 0 {
        lemma_encode_char(a[0]);
    }
    lemma_first_from_is(bytes, pb, 0, i);
    assert(bytes.take(i) =~= encode_utf8(a));
    assert(bytes.skip(i) =~= encode_utf8(b));
}

proof fn lemma_none_encoded(a: Seq<char>, pc: spec_fn(char) -> bool, pb: spec_fn(u8) -> bool)
    requires
        ascii_property(pc, pb),
        forall|j: int| 0 <= j < a.len() ==> !pc(#[trigger] a[j]),
    ensures
        forall|j: int| 0 <= j < encode_utf8(a).len() ==> !pb(#[trigger] encode_utf8(a)[j]),
    decreases a.len(),
{
    if a.len() > 0 {
        let rest = a.drop_first();
        assert forall|j: int| 0 <= j < rest.len() implies !pc(#[trigger] rest[j]) by {
            assert(rest[j] == a[j + 1]);
        }
        lemma_none_encoded(rest, pc, pb);
        lemma_encode_char(a[0]);
        let e = encode_scalar(a[0] as u32);
        assert forall|j: int| 0 <= j < encode_utf8(a).len() implies !pb(
            #[trigger] encode_utf8(a)[j],
        ) by {
            if j < e.len() {
                assert(encode_utf8(a)[j] == e[j]);
                assert(!pc(a[0]));
            } else {
                assert(encode_utf8(a)[j] == encode_utf8(rest)[j - e.len()]);
            }
        }
    }
}

pub proof fn lemma_is_ascii_property(x: char)
    requires
        (x as u32) < 0x80,
    ensures
        ascii_property(equal_to(x), equal_to(x as u8)),
{
    assert forall|c: char| 0 <= c as int <= 0x7f implies #[trigger] equal_to(x)(c) == equal_to(
        x as u8,
    )(c as u8) by {}
}

/// The fields of a text and the fields of its bytes are the same.
pub proof fn lemma_fields_encoded(t: Seq<char>, sep: char)
    requires
        (sep as u32) < 0x80,
    ensures
        fields(encode_utf8(t), sep as u8) == fields(t, sep).map_values(
            |f: Seq<char>| encode_utf8(f),
        ),
    decreases t.len(),
{
    lemma_is_ascii_property(sep);
    lemma_first_ascii(t, equal_to(sep), equal_to(sep as u8));
    let k = first_of(t, sep);
    if k < t.len() {
        lemma_fields_encoded(t.skip(k + 1), sep);
    }
    assert(fields(encode_utf8(t), sep as u8) =~= fields(t, sep).map_values(
        |f: Seq<char>| encode_utf8(f),
    ));
}

} // verus!
