use crate::sync::model::{context_before, evaluated, fired};
use crate::sync::transition::TransitionCondition;
use crate::StateKey;
use vstd::prelude::*;

verus! {

/// Asks `conditions` in order until one names a destination, and returns that
/// destination, or `None` where all of them declined. The ghost part of the
/// result records, for each condition asked, the context it left and its
/// answer.
pub(crate) fn first_destination<Context, Key, T>(
    conditions: &Vec<T>,
    context: &mut Context,
    requested: &Option<Key>,
    time_in_state_nanos: u128,
) -> (result: (Option<Key>, Ghost<Seq<(Context, Option<Key>)>>)) where
    Key: StateKey,
    T: TransitionCondition<Context, Key>,

    ensures
        evaluated(conditions@, *old(context), *requested, time_in_state_nanos, result.1@),
        result.0 == fired(result.1@),
        *final(context) == context_before(result.1@, *old(context), result.1@.len() as int),
{
    let ghost start = *context;
    let ghost mut evaluations: Seq<(Context, Option<Key>)> = Seq::empty();
    let mut i: usize = 0;
    while i < conditions.len()
        invariant
            i <= conditions.len(),
            start == *old(context),
            evaluations.len() == i,
            forall|j: int|
                0 <= j < i ==> #[trigger] conditions@[j].decides(
                    context_before(evaluations, start, j),
                    *requested,
                    time_in_state_nanos,
                    evaluations[j].0,
                    evaluations[j].1,
                ),
            forall|j: int| 0 <= j < i ==> (#[trigger] evaluations[j]).1 is None,
            *context == context_before(evaluations, start, i as int),
        decreases conditions.len() - i,
    {
        let ghost before = evaluations;
        let destination = conditions[i].evaluate(context, requested, time_in_state_nanos);
        proof {
            evaluations = before.push((*context, destination));
            assert forall|j: int| 0 <= j <= i implies #[trigger] conditions@[j].decides(
                context_before(evaluations, start, j),
                *requested,
                time_in_state_nanos,
                evaluations[j].0,
                evaluations[j].1,
            ) by {
                if j > 0 {
                    assert(evaluations[j - 1] == before[j - 1]);
                }
                if j < i {
                    assert(evaluations[j] == before[j]);
                    assert(context_before(evaluations, start, j) == context_before(
                        before,
                        start,
                        j,
                    ));
                }
            }
        }
        if destination.is_some() {
            assert(evaluations.last() == (*context, destination));
            assert forall|j: int| 0 <= j < evaluations.len() - 1 implies (#[trigger] evaluations[j]).1
                is None by {
                assert(evaluations[j] == before[j]);
            }
            return (destination, Ghost(evaluations));
        }
        i += 1;
    }
    (None, Ghost(evaluations))
}

} // verus!
