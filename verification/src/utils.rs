//! Processing of the items of a list with their places.

use vstd::prelude::*;

verus! {

/// What is kept of the outcomes: those that are there, in order.
pub open spec fn kept_outcomes<U>(outcomes: Seq<Option<U>>) -> Seq<U>
    decreases outcomes.len(),
{
    if outcomes.len() == 0 {
        Seq::empty()
    } else {
        match outcomes.last() {
            Some(u) => kept_outcomes(outcomes.drop_last()).push(u),
            None => kept_outcomes(outcomes.drop_last()),
        }
    }
}

/// Whether `outcomes` can be what `process` made of the items, place by
/// place.
pub open spec fn outcomes_of<T, U, F: Fn(usize, &T) -> Option<U>>(
    process: F,
    items: Seq<T>,
    outcomes: Seq<Option<U>>,
) -> bool {
    outcomes.len() == items.len() && forall|i: int|
        0 <= i < items.len() ==> call_ensures(
            process,
            (i as usize, &items[i]),
            #[trigger] outcomes[i],
        )
}

/// Hands each item to `process` with its place, in order, and keeps what
/// comes back, in that order.
pub fn process_indexed<T, U, F: Fn(usize, &T) -> Option<U>>(items: &[T], process: F) -> (r:
    Vec<U>)
    requires
        forall|i: int| 0 <= i < items@.len() ==> call_requires(process, (i as usize, &items@[i])),
    ensures
        exists|outcomes: Seq<Option<U>>|
            outcomes_of(process, items@, outcomes) && r@ == kept_outcomes(outcomes),
{
    let mut out: Vec<U> = Vec::new();
    let ghost mut outcomes: Seq<Option<U>> = Seq::empty();
    let mut i: usize = 0;
    while i < items.len()
        invariant
            i <= items@.len(),
            outcomes.len() == i,
            forall|k: int|
                0 <= k < i ==> call_ensures(process, (k as usize, &items@[k]), #[trigger] outcomes[k]),
            forall|k: int| 0 <= k < items@.len() ==> call_requires(process, (k as usize, &items@[k])),
            out@ == kept_outcomes(outcomes),
        decreases items@.len() - i,
    {
        let outcome = process(i, &items[i]);
        proof {
            let next = outcomes.push(outcome);
            assert(next.drop_last() == outcomes);
            assert(next.last() == outcome);
            assert forall|k: int| 0 <= k < i + 1 implies call_ensures(
                process,
                (k as usize, &items@[k]),
                #[trigger] next[k],
            ) by {
                if k < i {
                    assert(next[k] == outcomes[k]);
                }
            }
            outcomes = next;
        }
        match outcome {
            Some(u) => {
                out.push(u);
            },
            None => {},
        }
        i += 1;
    }
    assert(outcomes_of(process, items@, outcomes));
    out
}

} // verus!
