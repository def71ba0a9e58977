//! The settings that are applied again when a camera is plugged in, since UVC
//! settings do not survive that.

use crate::text::{pair_texts, same};
use crate::uvc::table::{find, find_spec};
use vstd::prelude::*;
use vstd::string::*;

verus! {

/// The parameters with other names than `name`.
pub open spec fn without(
    saved: Seq<(Seq<char>, Seq<char>)>,
    name: Seq<char>,
) -> Seq<(Seq<char>, Seq<char>)>
    decreases saved.len(),
{
    if saved.len() == 0 {
        saved
    } else if saved.last().0 == name {
        without(saved.drop_last(), name)
    } else {
        without(saved.drop_last(), name).push(saved.last())
    }
}

/// What is remembered after applying `params`: a parameter takes the place of
/// an earlier one for the same control; what names no control is passed over.
pub open spec fn remembered(
    saved: Seq<(Seq<char>, Seq<char>)>,
    params: Seq<(Seq<char>, Seq<char>)>,
) -> Seq<(Seq<char>, Seq<char>)>
    decreases params.len(),
{
    if params.len() == 0 {
        saved
    } else {
        let before = remembered(saved, params.drop_last());
        if find_spec(params.last().0) is None {
            before
        } else {
            without(before, params.last().0).push(params.last())
        }
    }
}

fn others(saved: &Vec<(String, String)>, name: &str) -> (r: Vec<(String, String)>)
    ensures
        pair_texts(r@) == without(pair_texts(saved@), name@),
{
    let mut out: Vec<(String, String)> = Vec::new();
    let ghost s = pair_texts(saved@);
    let mut i: usize = 0;
    proof {
        assert(s.take(0) =~= Seq::empty());
        assert(pair_texts(out@) =~= Seq::empty());
    }
    while i < saved.len()
        invariant
            i <= saved.len(),
            s == pair_texts(saved@),
            pair_texts(out@) == without(s.take(i as int), name@),
        decreases saved.len() - i,
    {
        proof {
            assert(s.take(i + 1).drop_last() =~= s.take(i as int));
            assert(s.take(i + 1).last() == (saved@[i as int].0@, saved@[i as int].1@));
        }
        if !same(saved[i].0.as_str(), name) {
            let ghost before = pair_texts(out@);
            out.push((saved[i].0.clone(), saved[i].1.clone()));
            assert(pair_texts(out@) =~= before.push((saved@[i as int].0@, saved@[i as int].1@)));
        }
        i = i + 1;
    }
    assert(s.take(i as int) =~= s);
    out
}

/// The same parameters once more.
pub(crate) fn clone_pairs(saved: &Vec<(String, String)>) -> (r: Vec<(String, String)>)
    ensures
        pair_texts(r@) == pair_texts(saved@),
{
    let mut out: Vec<(String, String)> = Vec::new();
    let mut i: usize = 0;
    while i < saved.len()
        invariant
            i <= saved.len(),
            pair_texts(out@) =~= pair_texts(saved@).take(i as int),
        decreases saved.len() - i,
    {
        let ghost before = pair_texts(out@);
        out.push((saved[i].0.clone(), saved[i].1.clone()));
        assert(pair_texts(out@) =~= before.push((saved@[i as int].0@, saved@[i as int].1@)));
        i = i + 1;
    }
    assert(pair_texts(out@) =~= pair_texts(saved@));
    out
}

/// Takes note of parameters that have been applied.
pub fn remember(saved: &mut Vec<(String, String)>, params: &[(String, String)])
    ensures
        pair_texts(final(saved)@) == remembered(pair_texts(old(saved)@), pair_texts(params@)),
{
    let ghost p = pair_texts(params@);
    let mut i: usize = 0;
    assert(p.take(0) =~= Seq::empty());
    while i < params.len()
        invariant
            i <= params.len(),
            p == pair_texts(params@),
            pair_texts(saved@) == remembered(pair_texts(old(saved)@), p.take(i as int)),
        decreases params.len() - i,
    {
        proof {
            assert(p.take(i + 1).drop_last() =~= p.take(i as int));
            assert(p.take(i + 1).last() == (params@[i as int].0@, params@[i as int].1@));
        }
        if find(params[i].0.as_str()).is_some() {
            let mut kept = others(saved, params[i].0.as_str());
            let ghost before = pair_texts(kept@);
            kept.push((params[i].0.clone(), params[i].1.clone()));
            assert(pair_texts(kept@) =~= before.push((params@[i as int].0@, params@[i as int].1@)));
            *saved = kept;
        }
        i = i + 1;
    }
    assert(p.take(i as int) =~= p);
}

} // verus!
