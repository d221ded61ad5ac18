use crate::StateKey;
use std::time::Duration;
use vstd::prelude::*;

verus! {

/// One state of a machine: it knows its own key and offers three hooks that
/// only the machine calls.
///
/// Each hook may change the state itself and the context. What a hook is
/// allowed to do is named by a relation of the implementing type, between the
/// values before the call and the values after it; the machines state their
/// own contracts over these relations and promise nothing else of a hook.
/// A relation that is not written out allows everything.
pub trait State<Context, Key> where Key: StateKey {
    /// The key of this state, as a value to reason with.
    spec fn key(&self) -> Key;

    /// The key of this state. A machine registers the state under it.
    fn state_key(&self) -> (k: Key)
        ensures
            k == self.key(),
    ;

    /// What `on_enter` may do: from `self` and `context` at `timestamp_nanos`
    /// to `after` and `context_after`.
    open spec fn entered(
        &self,
        context: Context,
        timestamp_nanos: u128,
        after: &Self,
        context_after: Context,
    ) -> bool {
        true
    }

    /// Called when the machine makes this state the current one.
    fn on_enter(&mut self, context: &mut Context, timestamp_nanos: u128)
        ensures
            old(self).entered(*old(context), timestamp_nanos, final(self), *final(context)),
    ;

    /// What `on_exit` may do, after `time_in_state` in this state.
    open spec fn exited(
        &self,
        context: Context,
        timestamp_nanos: u128,
        time_in_state: Duration,
        after: &Self,
        context_after: Context,
    ) -> bool {
        true
    }

    /// Called when the machine leaves this state.
    fn on_exit(&mut self, context: &mut Context, timestamp_nanos: u128, time_in_state: Duration)
        ensures
            old(self).exited(
                *old(context),
                timestamp_nanos,
                time_in_state,
                final(self),
                *final(context),
            ),
    ;

    /// What `do_state_action` may do, after `time_in_state` in this state.
    open spec fn acted(
        &self,
        context: Context,
        timestamp_nanos: u128,
        time_in_state: Duration,
        after: &Self,
        context_after: Context,
    ) -> bool {
        true
    }

    /// Called once per tick on the state that is current at the end of the tick.
    fn do_state_action(
        &mut self,
        context: &mut Context,
        timestamp_nanos: u128,
        time_in_state: Duration,
    )
        ensures
            old(self).acted(
                *old(context),
                timestamp_nanos,
                time_in_state,
                final(self),
                *final(context),
            ),
    ;
}

/// A state that is lent to a machine: the machine calls the hooks of the state
/// behind the reference, and the lender has the state back when the machine is
/// gone.
impl<'a, Context, Key, S> State<Context, Key> for &'a mut S where
    Key: StateKey,
    S: State<Context, Key>,
 {
    open spec fn key(&self) -> Key {
        (**self).key()
    }

    fn state_key(&self) -> (k: Key) {
        (**self).state_key()
    }

    open spec fn entered(
        &self,
        context: Context,
        timestamp_nanos: u128,
        after: &Self,
        context_after: Context,
    ) -> bool {
        (**self).entered(context, timestamp_nanos, &**after, context_after)
    }

    fn on_enter(&mut self, context: &mut Context, timestamp_nanos: u128) {
        (**self).on_enter(context, timestamp_nanos)
    }

    open spec fn exited(
        &self,
        context: Context,
        timestamp_nanos: u128,
        time_in_state: Duration,
        after: &Self,
        context_after: Context,
    ) -> bool {
        (**self).exited(context, timestamp_nanos, time_in_state, &**after, context_after)
    }

    fn on_exit(&mut self, context: &mut Context, timestamp_nanos: u128, time_in_state: Duration) {
        (**self).on_exit(context, timestamp_nanos, time_in_state)
    }

    open spec fn acted(
        &self,
        context: Context,
        timestamp_nanos: u128,
        time_in_state: Duration,
        after: &Self,
        context_after: Context,
    ) -> bool {
        (**self).acted(context, timestamp_nanos, time_in_state, &**after, context_after)
    }

    fn do_state_action(
        &mut self,
        context: &mut Context,
        timestamp_nanos: u128,
        time_in_state: Duration,
    ) {
        (**self).do_state_action(context, timestamp_nanos, time_in_state)
    }
}

} // verus!
