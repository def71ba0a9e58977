//! Searching and splitting sequences.

pub mod laws;

use vstd::prelude::*;

verus! {

/// The index of the first element from `from` on with property `p`; the
/// length of the sequence where there is none.
pub open spec fn first_from<A>(s: Seq<A>, p: spec_fn(A) -> bool, from: int) -> int
    decreases s.len() - from,
{
    if from >= s.len() || p(s[from]) {
        from
    } else {
        first_from(s, p, from + 1)
    }
}

/// The property of being equal to `x`.
pub open spec fn equal_to<A>(x: A) -> spec_fn(A) -> bool {
    |a: A| a == x
}

/// The index of the first element equal to `x`; the length of the sequence
/// where there is none.
pub open spec fn first_of<A>(s: Seq<A>, x: A) -> int {
    first_from(s, equal_to(x), 0)
}

/// The non-empty pieces of `s` between occurrences of `sep`, in order.
pub open spec fn fields<A>(s: Seq<A>, sep: A) -> Seq<Seq<A>>
    decreases s.len(),
{
    let i = first_of(s, sep);
    let rest = if 0 <= i < s.len() {
        fields(s.skip(i + 1), sep)
    } else {
        Seq::empty()
    };
    if i == 0 {
        rest
    } else {
        seq![s.take(i)] + rest
    }
}

pub proof fn lemma_first_from_range<A>(s: Seq<A>, p: spec_fn(A) -> bool, from: int)
    requires
        0 <= from <= s.len(),
    ensures
        from <= first_from(s, p, from) <= s.len(),
        first_from(s, p, from) < s.len() ==> p(s[first_from(s, p, from)]),
        forall|i: int| from <= i < first_from(s, p, from) ==> !p(#[trigger] s[i]),
    decreases s.len() - from,
{
    if from < s.len() && !p(s[from]) {
        lemma_first_from_range(s, p, from + 1);
    }
}

/// An index with property `p`, or the length, before which no element from
/// `from` on has it is the first.
pub proof fn lemma_first_from_is<A>(s: Seq<A>, p: spec_fn(A) -> bool, from: int, k: int)
    requires
        0 <= from <= k <= s.len(),
        k < s.len() ==> p(s[k]),
        forall|i: int| from <= i < k ==> !p(#[trigger] s[i]),
    ensures
        first_from(s, p, from) == k,
{
    lemma_first_from_range(s, p, from);
    let f = first_from(s, p, from);
    if f < k {
        assert(!p(s[f]));
    } else if k < f {
        assert(!p(s[k]));
    }
}

pub proof fn lemma_first_from_push<A>(s: Seq<A>, a: A, p: spec_fn(A) -> bool, from: int)
    requires
        0 <= from <= s.len(),
    ensures
        first_from(s.push(a), p, from) == (if first_from(s, p, from) < s.len() {
            first_from(s, p, from)
        } else if p(a) {
            s.len() as int
        } else {
            s.len() as int + 1
        }),
{
    lemma_first_from_range(s, p, from);
    let f = first_from(s, p, from);
    let k = if f < s.len() || p(a) {
        f
    } else {
        f + 1
    };
    assert forall|i: int| from <= i < k implies !p(#[trigger] s.push(a)[i]) by {
        if i < s.len() {
            assert(!p(s[i]));
        }
    }
    lemma_first_from_is(s.push(a), p, from, k);
}

/// Finds the first byte equal to `x` from `from` on.
pub fn position(b: &[u8], x: u8, from: usize) -> (r: usize)
    requires
        from <= b.len(),
    ensures
        r == first_from(b@, equal_to(x), from as int),
        from <= r <= b.len(),
{
    let mut i: usize = from;
    while i < b.len()
        invariant
            from <= i <= b.len(),
            first_from(b@, equal_to(x), from as int) == first_from(b@, equal_to(x), i as int),
        decreases b.len() - i,
    {
        if b[i] == x {
            return i;
        }
        i = i + 1;
    }
    i
}

/// The non-empty pieces of `b` between separators.
pub fn split_fields<'a>(b: &'a [u8], sep: u8) -> (r: Vec<&'a [u8]>)
    ensures
        r.len() == fields(b@, sep).len(),
        forall|i: int| 0 <= i < r.len() ==> (#[trigger] r@[i])@ == fields(b@, sep)[i],
{
    let mut out: Vec<&'a [u8]> = Vec::new();
    let mut rest: &'a [u8] = b;
    let ghost all = fields(b@, sep);
    loop
        invariant
            out.len() + fields(rest@, sep).len() == all.len(),
            forall|i: int| 0 <= i < out.len() ==> (#[trigger] out@[i])@ == all[i],
            forall|i: int|
                0 <= i < fields(rest@, sep).len() ==> #[trigger] fields(rest@, sep)[i] == all[i
                    + out.len()],
            all == fields(b@, sep),
        decreases rest@.len(),
    {
        let i: usize = position(rest, sep, 0);
        let ghost now = fields(rest@, sep);
        let ghost before = out.len();
        if i > 0 {
            let piece = vstd::slice::slice_subrange(rest, 0, i);
            assert(piece@ =~= rest@.take(i as int));
            assert(now[0] == all[before as int]);
            out.push(piece);
        }
        if i == rest.len() {
            return out;
        }
        let next = vstd::slice::slice_subrange(rest, i + 1, rest.len());
        proof {
            assert(next@ =~= rest@.skip(i + 1));
            let more = fields(next@, sep);
            let d: int = if i == 0 {
                0
            } else {
                1
            };
            assert forall|j: int| 0 <= j < more.len() implies #[trigger] more[j] == all[j
                + out.len()] by {
                assert(now[j + d] == more[j]);
                assert(now[j + d] == all[j + d + before]);
            }
        }
        rest = next;
    }
}

} // verus!
