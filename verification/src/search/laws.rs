//! How texts are split.

use crate::search::{equal_to, fields, first_of, lemma_first_from_is, lemma_first_from_range};
use vstd::prelude::*;

verus! {

/// What stands between separators is a field if there is anything; the fields
/// before and after a separator do not depend on each other.
pub proof fn law_fields<A>(a: Seq<A>, sep: A, b: Seq<A>)
    ensures
        fields(Seq::<A>::empty(), sep) == Seq::<Seq<A>>::empty(),
        a.len() > 0 && !a.contains(sep) ==> fields(a, sep) == seq![a],
        fields(a + seq![sep] + b, sep) == fields(a, sep) + fields(b, sep),
    decreases a.len(),
{
    let s = a + seq![sep] + b;
    let k = first_of(a, sep);
    lemma_first_from_range(a, equal_to(sep), 0);
    assert(fields(Seq::<A>::empty(), sep) =~= Seq::empty());
    assert forall|i: int| 0 <= i < k implies !equal_to(sep)(#[trigger] s[i]) by {
        assert(s[i] == a[i]);
        assert(!equal_to(sep)(a[i]));
    }
    assert(s[k] == sep);
    lemma_first_from_is(s, equal_to(sep), 0, k);
    assert(s.take(k) =~= a.take(k));
    if k < a.len() {
        assert(a[k] == sep);
        assert(a.contains(sep));
        let rest = a.skip(k + 1);
        law_fields(rest, sep, b);
        assert(s.skip(k + 1) =~= rest + seq![sep] + b);
        assert(fields(s, sep) =~= fields(a, sep) + fields(b, sep));
    } else {
        assert(s.skip(k + 1) =~= b);
        assert(a.take(k) =~= a);
        if a.len() == 0 {
            assert(a =~= Seq::empty());
        } else {
            assert(fields(a, sep) =~= seq![a]);
        }
        assert(fields(s, sep) =~= fields(a, sep) + fields(b, sep));
    }
}

/// The first occurrence of an element: it is one, and none stands before it.
pub proof fn law_first_of<A>(s: Seq<A>, x: A, i: int)
    ensures
        0 <= first_of(s, x) <= s.len(),
        first_of(s, x) < s.len() ==> s[first_of(s, x)] == x,
        0 <= i < first_of(s, x) ==> s[i] != x,
{
    lemma_first_from_range(s, equal_to(x), 0);
    if 0 <= i < first_of(s, x) {
        assert(!equal_to(x)(s[i]));
    }
}

} // verus!
