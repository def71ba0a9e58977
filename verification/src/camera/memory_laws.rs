//! What holds of the settings that are remembered.

use crate::camera::memory::{remembered, without};
use crate::uvc::table::find_spec;
use vstd::prelude::*;

verus! {

/// The value that is remembered for a control.
pub open spec fn value_for(saved: Seq<(Seq<char>, Seq<char>)>, name: Seq<char>) -> Option<Seq<char>>
    decreases saved.len(),
{
    if saved.len() == 0 {
        None
    } else if saved.last().0 == name {
        Some(saved.last().1)
    } else {
        value_for(saved.drop_last(), name)
    }
}

/// No control is remembered twice, and nothing but controls is remembered.
pub open spec fn is_memory(saved: Seq<(Seq<char>, Seq<char>)>) -> bool {
    &&& forall|i: int| 0 <= i < saved.len() ==> find_spec(#[trigger] saved[i].0) is Some
    &&& forall|i: int, j: int|
        0 <= i < j < saved.len() ==> (#[trigger] saved[i]).0 != (#[trigger] saved[j]).0
}

proof fn lemma_without(saved: Seq<(Seq<char>, Seq<char>)>, name: Seq<char>, other: Seq<char>)
    ensures
        value_for(without(saved, name), name) is None,
        other != name ==> value_for(without(saved, name), other) == value_for(saved, other),
        forall|i: int|
            0 <= i < without(saved, name).len() ==> (#[trigger] without(saved, name)[i]).0 != name
                && saved.contains(without(saved, name)[i]),
        is_memory(saved) ==> is_memory(without(saved, name)),
    decreases saved.len(),
{
    if saved.len() > 0 {
        let init = saved.drop_last();
        lemma_without(init, name, other);
        let kept = without(init, name);
        let r = without(saved, name);
        assert forall|i: int| 0 <= i < r.len() implies (#[trigger] r[i]).0 != name
            && saved.contains(r[i]) by {
            if i < kept.len() {
                assert(r[i] == kept[i]);
                let j = choose|j: int| 0 <= j < init.len() && init[j] == kept[i];
                assert(saved[j] == r[i]);
            } else {
                assert(saved[saved.len() - 1] == r[i]);
            }
        }
        if saved.last().0 != name {
            assert(r.drop_last() =~= kept);
        }
        if is_memory(saved) {
            assert(is_memory(init)) by {
                assert forall|i: int| 0 <= i < init.len() implies find_spec(
                    #[trigger] init[i].0,
                ) is Some by {
                    assert(saved[i].0 == init[i].0);
                }
                assert forall|i: int, j: int| 0 <= i < j < init.len() implies (
                #[trigger] init[i]).0 != (#[trigger] init[j]).0 by {
                    assert(saved[i].0 != saved[j].0);
                }
            }
            if saved.last().0 != name {
                assert forall|i: int| 0 <= i < r.len() implies find_spec(
                    #[trigger] r[i].0,
                ) is Some by {
                    if i < kept.len() {
                        assert(r[i].0 == kept[i].0);
                    } else {
                        assert(r[i].0 == saved[saved.len() - 1].0);
                    }
                }
                assert forall|i: int, j: int| 0 <= i < j < r.len() implies (#[trigger] r[i]).0 != (
                #[trigger] r[j]).0 by {
                    assert(r[i] == kept[i]);
                    if j < kept.len() {
                        assert(r[j] == kept[j]);
                    } else {
                        let k = choose|k: int| 0 <= k < init.len() && init[k] == kept[i];
                        assert(saved[k].0 != saved[saved.len() - 1].0);
                    }
                }
            }
        }
    }
}

/// A request keeps the memory free of repetitions.
proof fn lemma_remembered_is_memory(
    saved: Seq<(Seq<char>, Seq<char>)>,
    params: Seq<(Seq<char>, Seq<char>)>,
)
    requires
        is_memory(saved),
    ensures
        is_memory(remembered(saved, params)),
    decreases params.len(),
{
    if params.len() > 0 {
        let init = params.drop_last();
        lemma_remembered_is_memory(saved, init);
        let before = remembered(saved, init);
        let p = params.last();
        if find_spec(p.0) is Some {
            lemma_without(before, p.0, p.0);
            let others = without(before, p.0);
            let now = others.push(p);
            assert forall|i: int| 0 <= i < now.len() implies find_spec(
                #[trigger] now[i].0,
            ) is Some by {
                if i < others.len() {
                    assert(now[i].0 == others[i].0);
                }
            }
            assert forall|i: int, j: int| 0 <= i < j < now.len() implies (#[trigger] now[i]).0 != (
            #[trigger] now[j]).0 by {
                assert(now[i] == others[i]);
                if j < others.len() {
                    assert(now[j] == others[j]);
                }
            }
        }
    }
}

/// Applied parameters are remembered: for a control that was among them the
/// last value counts, for any other control the value from before. No control
/// is remembered twice.
pub proof fn law_last_value_is_remembered(
    saved: Seq<(Seq<char>, Seq<char>)>,
    params: Seq<(Seq<char>, Seq<char>)>,
    name: Seq<char>,
)
    requires
        is_memory(saved),
        find_spec(name) is Some,
    ensures
        is_memory(remembered(saved, params)),
        value_for(remembered(saved, params), name) == (match value_for(params, name) {
            Some(value) => Some(value),
            None => value_for(saved, name),
        }),
    decreases params.len(),
{
    lemma_remembered_is_memory(saved, params);
    if params.len() > 0 {
        let init = params.drop_last();
        law_last_value_is_remembered(saved, init, name);
        let before = remembered(saved, init);
        let p = params.last();
        if find_spec(p.0) is Some {
            lemma_without(before, p.0, name);
            let others = without(before, p.0);
            assert(others.push(p).drop_last() =~= others);
        }
    }
}

/// What of `saved` is for controls that `params` do not name, in order.
pub open spec fn kept(
    saved: Seq<(Seq<char>, Seq<char>)>,
    params: Seq<(Seq<char>, Seq<char>)>,
) -> Seq<(Seq<char>, Seq<char>)>
    decreases saved.len(),
{
    if saved.len() == 0 {
        saved
    } else if value_for(params, saved.last().0) is None {
        kept(saved.drop_last(), params).push(saved.last())
    } else {
        kept(saved.drop_last(), params)
    }
}

/// The parameters that name controls, each control where it occurs last.
pub open spec fn last_occurrences(params: Seq<(Seq<char>, Seq<char>)>) -> Seq<
    (Seq<char>, Seq<char>),
>
    decreases params.len(),
{
    if params.len() == 0 {
        params
    } else {
        let rest = last_occurrences(params.drop_first());
        if find_spec(params[0].0) is Some && value_for(params.drop_first(), params[0].0) is None {
            seq![params[0]] + rest
        } else {
            rest
        }
    }
}

proof fn lemma_without_concat(
    a: Seq<(Seq<char>, Seq<char>)>,
    b: Seq<(Seq<char>, Seq<char>)>,
    name: Seq<char>,
)
    ensures
        without(a + b, name) == without(a, name) + without(b, name),
    decreases b.len(),
{
    if b.len() == 0 {
        assert(a + b =~= a);
        assert(without(a, name) + without(b, name) =~= without(a, name));
    } else {
        lemma_without_concat(a, b.drop_last(), name);
        assert((a + b).drop_last() =~= a + b.drop_last());
        assert(without(a + b, name) =~= without(a, name) + without(b, name));
    }
}

/// One more parameter takes the place of an earlier one for the same control.
proof fn lemma_last_occurrences_push(
    params: Seq<(Seq<char>, Seq<char>)>,
    p: (Seq<char>, Seq<char>),
)
    ensures
        last_occurrences(params.push(p)) == (if find_spec(p.0) is Some {
            without(last_occurrences(params), p.0).push(p)
        } else {
            last_occurrences(params)
        }),
    decreases params.len(),
{
    let more = params.push(p);
    if params.len() == 0 {
        assert(more.drop_first() =~= Seq::empty());
        assert(last_occurrences(more.drop_first()) =~= Seq::empty());
        assert(without(last_occurrences(params), p.0) =~= Seq::empty());
        assert(value_for(more.drop_first(), p.0) is None);
        if find_spec(p.0) is Some {
            assert(last_occurrences(more) =~= seq![p]);
            assert(without(last_occurrences(params), p.0).push(p) =~= seq![p]);
        } else {
            assert(last_occurrences(more) =~= last_occurrences(params));
        }
    } else {
        let rest = params.drop_first();
        let first = params[0];
        lemma_last_occurrences_push(rest, p);
        assert(more.drop_first() =~= rest.push(p));
        assert(rest.push(p).drop_last() =~= rest);
        let one = seq![first];
        let tail = last_occurrences(rest);
        lemma_without_concat(one, tail, p.0);
        assert(one.drop_last() =~= Seq::empty());
        assert(without(one.drop_last(), p.0) =~= Seq::empty());
        assert(without(one, p.0) =~= (if first.0 == p.0 {
            Seq::empty()
        } else {
            one
        }));
        if find_spec(p.0) is Some {
            assert(last_occurrences(more) =~= without(last_occurrences(params), p.0).push(p));
        } else {
            assert(last_occurrences(more) =~= last_occurrences(params));
        }
    }
}

/// What one more parameter leaves of the memory.
proof fn lemma_kept_push(
    saved: Seq<(Seq<char>, Seq<char>)>,
    params: Seq<(Seq<char>, Seq<char>)>,
    p: (Seq<char>, Seq<char>),
)
    requires
        forall|i: int| 0 <= i < saved.len() ==> find_spec(#[trigger] saved[i].0) is Some,
    ensures
        kept(saved, params.push(p)) == (if find_spec(p.0) is Some {
            without(kept(saved, params), p.0)
        } else {
            kept(saved, params)
        }),
    decreases saved.len(),
{
    assert(params.push(p).drop_last() =~= params);
    if saved.len() > 0 {
        let init = saved.drop_last();
        assert forall|i: int| 0 <= i < init.len() implies find_spec(
            #[trigger] init[i].0,
        ) is Some by {
            assert(saved[i].0 == init[i].0);
        }
        lemma_kept_push(init, params, p);
        let last = saved.last();
        assert(find_spec(saved[saved.len() - 1].0) is Some);
        let k = kept(init, params);
        if value_for(params, last.0) is None {
            assert(kept(saved, params).drop_last() =~= k);
        }
    }
}

/// After a request the memory holds first what it held for other controls, in
/// the order it was in, and then the controls of the request, each with its
/// last value, in the order of their last occurrences.
pub proof fn law_memory_is_ordered(
    saved: Seq<(Seq<char>, Seq<char>)>,
    params: Seq<(Seq<char>, Seq<char>)>,
)
    requires
        is_memory(saved),
    ensures
        remembered(saved, params) == kept(saved, params) + last_occurrences(params),
    decreases params.len(),
{
    if params.len() == 0 {
        lemma_kept_all(saved, params);
        assert(kept(saved, params) + last_occurrences(params) =~= saved);
    } else {
        let init = params.drop_last();
        let p = params.last();
        law_memory_is_ordered(saved, init);
        assert(init.push(p) =~= params);
        lemma_kept_push(saved, init, p);
        lemma_last_occurrences_push(init, p);
        lemma_without_concat(kept(saved, init), last_occurrences(init), p.0);
        assert(remembered(saved, params) =~= kept(saved, params) + last_occurrences(params));
    }
}

/// Settings whose controls are not named are all kept.
proof fn lemma_kept_all(
    saved: Seq<(Seq<char>, Seq<char>)>,
    params: Seq<(Seq<char>, Seq<char>)>,
)
    requires
        forall|i: int|
            0 <= i < saved.len() ==> value_for(params, #[trigger] saved[i].0) is None,
    ensures
        kept(saved, params) == saved,
    decreases saved.len(),
{
    if saved.len() > 0 {
        let init = saved.drop_last();
        assert forall|i: int| 0 <= i < init.len() implies value_for(
            params,
            #[trigger] init[i].0,
        ) is None by {
            assert(saved[i].0 == init[i].0);
        }
        lemma_kept_all(init, params);
        assert(value_for(params, saved[saved.len() - 1].0) is None);
        assert(init.push(saved.last()) =~= saved);
    }
}

/// Settings whose controls are all named are all replaced.
proof fn lemma_kept_none(
    saved: Seq<(Seq<char>, Seq<char>)>,
    params: Seq<(Seq<char>, Seq<char>)>,
)
    requires
        forall|i: int|
            0 <= i < saved.len() ==> value_for(params, #[trigger] saved[i].0) is Some,
    ensures
        kept(saved, params) == Seq::<(Seq<char>, Seq<char>)>::empty(),
    decreases saved.len(),
{
    if saved.len() > 0 {
        let init = saved.drop_last();
        assert forall|i: int| 0 <= i < init.len() implies value_for(
            params,
            #[trigger] init[i].0,
        ) is Some by {
            assert(saved[i].0 == init[i].0);
        }
        lemma_kept_none(init, params);
        assert(value_for(params, saved[saved.len() - 1].0) is Some);
    } else {
        assert(saved =~= Seq::empty());
    }
}

proof fn lemma_kept_concat(
    a: Seq<(Seq<char>, Seq<char>)>,
    b: Seq<(Seq<char>, Seq<char>)>,
    params: Seq<(Seq<char>, Seq<char>)>,
)
    ensures
        kept(a + b, params) == kept(a, params) + kept(b, params),
    decreases b.len(),
{
    if b.len() == 0 {
        assert(a + b =~= a);
        assert(kept(a, params) + kept(b, params) =~= kept(a, params));
    } else {
        lemma_kept_concat(a, b.drop_last(), params);
        assert((a + b).drop_last() =~= a + b.drop_last());
        assert(kept(a + b, params) =~= kept(a, params) + kept(b, params));
    }
}

/// What is kept names no parameter of the request.
proof fn lemma_kept_names(
    saved: Seq<(Seq<char>, Seq<char>)>,
    params: Seq<(Seq<char>, Seq<char>)>,
)
    ensures
        forall|i: int|
            0 <= i < kept(saved, params).len() ==> value_for(
                params,
                #[trigger] kept(saved, params)[i].0,
            ) is None,
    decreases saved.len(),
{
    if saved.len() > 0 {
        lemma_kept_names(saved.drop_last(), params);
        let before = kept(saved.drop_last(), params);
        let now = kept(saved, params);
        assert forall|i: int| 0 <= i < now.len() implies value_for(
            params,
            #[trigger] now[i].0,
        ) is None by {
            if i < before.len() {
                assert(now[i].0 == before[i].0);
            }
        }
    }
}

/// A setting has a value in any list that it stands in.
proof fn lemma_value_for_member(params: Seq<(Seq<char>, Seq<char>)>, i: int)
    requires
        0 <= i < params.len(),
    ensures
        value_for(params, params[i].0) is Some,
    decreases params.len(),
{
    if i < params.len() - 1 {
        lemma_value_for_member(params.drop_last(), i);
        assert(params.drop_last()[i] == params[i]);
    }
}

proof fn lemma_last_occurrences_are_members(params: Seq<(Seq<char>, Seq<char>)>)
    ensures
        forall|i: int|
            0 <= i < last_occurrences(params).len() ==> params.contains(
                #[trigger] last_occurrences(params)[i],
            ),
    decreases params.len(),
{
    if params.len() > 0 {
        let rest = params.drop_first();
        lemma_last_occurrences_are_members(rest);
        let tail = last_occurrences(rest);
        let now = last_occurrences(params);
        let d = now.len() - tail.len();
        assert forall|i: int| 0 <= i < now.len() implies params.contains(#[trigger] now[i]) by {
            if i < d {
                assert(now[i] == params[0]);
            } else {
                assert(now[i] == tail[i - d]);
                let j = choose|j: int| 0 <= j < rest.len() && rest[j] == tail[i - d];
                assert(params[j + 1] == now[i]);
            }
        }
    }
}

/// The same request once more changes nothing.
pub proof fn law_repeated_request_changes_nothing(
    saved: Seq<(Seq<char>, Seq<char>)>,
    params: Seq<(Seq<char>, Seq<char>)>,
)
    requires
        is_memory(saved),
    ensures
        remembered(remembered(saved, params), params) == remembered(saved, params),
{
    let once = remembered(saved, params);
    let stay = kept(saved, params);
    let new = last_occurrences(params);
    lemma_remembered_is_memory(saved, params);
    law_memory_is_ordered(saved, params);
    law_memory_is_ordered(once, params);
    lemma_kept_concat(stay, new, params);
    lemma_kept_names(saved, params);
    lemma_kept_all(stay, params);
    lemma_last_occurrences_are_members(params);
    assert forall|i: int| 0 <= i < new.len() implies value_for(
        params,
        #[trigger] new[i].0,
    ) is Some by {
        assert(params.contains(new[i]));
        let j = choose|j: int| 0 <= j < params.len() && params[j] == new[i];
        lemma_value_for_member(params, j);
    }
    lemma_kept_none(new, params);
    assert(kept(once, params) + new =~= once);
}

/// A control that stands in no pair has no value.
proof fn lemma_value_for_stranger(params: Seq<(Seq<char>, Seq<char>)>, name: Seq<char>)
    requires
        forall|i: int| 0 <= i < params.len() ==> (#[trigger] params[i]).0 != name,
    ensures
        value_for(params, name) is None,
    decreases params.len(),
{
    if params.len() > 0 {
        let init = params.drop_last();
        assert forall|i: int| 0 <= i < init.len() implies (#[trigger] init[i]).0 != name by {
            assert(params[i].0 != name);
        }
        lemma_value_for_stranger(init, name);
        assert(params[params.len() - 1].0 != name);
    }
}

/// In a memory every pair is the last for its control.
proof fn lemma_memory_has_last_occurrences(saved: Seq<(Seq<char>, Seq<char>)>)
    requires
        is_memory(saved),
    ensures
        last_occurrences(saved) == saved,
    decreases saved.len(),
{
    if saved.len() > 0 {
        let rest = saved.drop_first();
        assert forall|i: int| 0 <= i < rest.len() implies find_spec(
            #[trigger] rest[i].0,
        ) is Some by {
            assert(saved[i + 1].0 == rest[i].0);
        }
        assert forall|i: int, j: int| 0 <= i < j < rest.len() implies (#[trigger] rest[i]).0 != (
        #[trigger] rest[j]).0 by {
            assert(saved[i + 1].0 != saved[j + 1].0);
        }
        lemma_memory_has_last_occurrences(rest);
        assert forall|i: int| 0 <= i < rest.len() implies (#[trigger] rest[i]).0
            != saved[0].0 by {
            assert(saved[0].0 != saved[i + 1].0);
        }
        lemma_value_for_stranger(rest, saved[0].0);
        assert(find_spec(saved[0].0) is Some);
        assert(seq![saved[0]] + rest =~= saved);
    }
}

/// Applying what is remembered, as happens when a camera is plugged in, leaves
/// the memory as it is.
pub proof fn law_reapplying_keeps_the_memory(saved: Seq<(Seq<char>, Seq<char>)>)
    requires
        is_memory(saved),
    ensures
        remembered(saved, saved) == saved,
{
    law_memory_is_ordered(saved, saved);
    assert forall|i: int| 0 <= i < saved.len() implies value_for(
        saved,
        #[trigger] saved[i].0,
    ) is Some by {
        lemma_value_for_member(saved, i);
    }
    lemma_kept_none(saved, saved);
    lemma_memory_has_last_occurrences(saved);
    assert(kept(saved, saved) + saved =~= saved);
}

} // verus!
