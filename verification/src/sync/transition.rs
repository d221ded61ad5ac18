use crate::StateKey;
use vstd::prelude::*;

verus! {

/// A condition under which a machine leaves a state.
///
/// It is asked once per tick, with the context, the state that the user asked
/// for since the last tick (if any) and the time spent in the current state, in
/// nanoseconds. It answers with the state to go to, or with `None` to stay. It
/// may change the context; it sees nothing of the machine.
pub trait TransitionCondition<Context, Key> where Key: StateKey {
    /// What one evaluation may do: from `context` to `context_after`, with
    /// `destination` as the answer. Where it is not written out, it allows
    /// everything.
    open spec fn decides(
        &self,
        context: Context,
        requested: Option<Key>,
        time_in_state_nanos: u128,
        context_after: Context,
        destination: Option<Key>,
    ) -> bool {
        true
    }

    /// Asks the condition.
    fn evaluate(
        &self,
        context: &mut Context,
        requested: &Option<Key>,
        time_in_state_nanos: u128,
    ) -> (destination: Option<Key>)
        ensures
            self.decides(
                *old(context),
                *requested,
                time_in_state_nanos,
                *final(context),
                destination,
            ),
    ;
}

} // verus!
