use crate::sync::state::State;
use crate::sync::timing::{duration_of_nanos, elapsed_nanos};
use crate::sync::transition::TransitionCondition;
use crate::{StateKey, StateMachineError};
use std::time::Duration;
use vstd::prelude::*;

verus! {

/// What a machine is, as plain mathematics: its bookkeeping, the states it
/// holds by key, and for each key the conditions registered for it, in the
/// order in which they were added.
#[verifier::reject_recursive_types(Key)]
#[verifier::reject_recursive_types(S)]
#[verifier::reject_recursive_types(T)]
pub struct MachineView<Key, S, T> {
    pub initial_state: Key,
    pub current_state: Key,
    pub current_state_start_time: u128,
    pub first_tick: bool,
    pub user_requested_state: Option<Key>,
    pub states: Map<Key, S>,
    pub transitions: Map<Key, Seq<T>>,
}

/// The values that pass between the steps of one tick.
#[verifier::reject_recursive_types(Key)]
#[verifier::reject_recursive_types(S)]
pub struct TickRun<Context, Key, S> {
    /// The states and the context once the first-tick `on_enter` is over.
    pub entered_states: Map<Key, S>,
    pub entered_context: Context,
    /// For each condition that was asked, in order: the context it left and
    /// its answer.
    pub evaluations: Seq<(Context, Option<Key>)>,
    /// The states and the context once the old state's `on_exit` is over.
    pub exited_states: Map<Key, S>,
    pub exited_context: Context,
    /// The states and the context once the new state's `on_enter` is over.
    pub arrived_states: Map<Key, S>,
    pub arrived_context: Context,
}

impl<Key, S, T> MachineView<Key, S, T> {
    /// A machine just built around one state.
    pub open spec fn fresh(key: Key, state: S) -> Self {
        MachineView {
            initial_state: key,
            current_state: key,
            current_state_start_time: 0,
            first_tick: true,
            user_requested_state: None,
            states: Map::empty().insert(key, state),
            transitions: Map::empty(),
        }
    }

    /// The conditions registered for `key`, oldest first; none where nothing
    /// was registered.
    pub open spec fn conditions_of(self, key: Key) -> Seq<T> {
        if self.transitions.contains_key(key) {
            self.transitions[key]
        } else {
            Seq::empty()
        }
    }

    /// The initial and the current state are registered, and conditions are
    /// registered for registered states only.
    pub open spec fn well_formed(self) -> bool {
        &&& self.states.contains_key(self.initial_state)
        &&& self.states.contains_key(self.current_state)
        &&& self.transitions.dom().subset_of(self.states.dom())
    }

    /// The machine keeps within `max_states` states and `max_conditions`
    /// conditions for each of them, its initial state is registered, and
    /// conditions are registered for registered states only.
    pub open spec fn within_limits(self, max_states: nat, max_conditions: nat) -> bool {
        &&& self.states.dom().finite()
        &&& self.states.dom().len() <= max_states
        &&& forall|key: Key| #[trigger] self.conditions_of(key).len() <= max_conditions
        &&& self.states.contains_key(self.initial_state)
        &&& self.transitions.dom().subset_of(self.states.dom())
    }

    /// The machine with `state` registered under `key`.
    pub open spec fn with_state(self, key: Key, state: S) -> Self {
        MachineView { states: self.states.insert(key, state), ..self }
    }

    /// The machine with `condition` added behind the conditions of `from`.
    pub open spec fn with_condition(self, from: Key, condition: T) -> Self {
        MachineView {
            transitions: self.transitions.insert(from, self.conditions_of(from).push(condition)),
            ..self
        }
    }

    /// The machine with a request of the user stored, over any earlier one.
    pub open spec fn with_request(self, requested: Key) -> Self {
        MachineView { user_requested_state: Some(requested), ..self }
    }

    /// The machine with the user's request taken away.
    pub open spec fn without_request(self) -> Self {
        MachineView { user_requested_state: None, ..self }
    }
}

/// `after` is `before` but for what it holds under `key`.
pub open spec fn changed_at<Key, S>(before: Map<Key, S>, key: Key, after: Map<Key, S>) -> bool {
    &&& before.contains_key(key)
    &&& after == before.insert(key, after[key])
}

/// `on_enter` ran on the state under `key`, and on nothing else.
pub open spec fn entered_at<Context, Key: StateKey, S: State<Context, Key>>(
    before: Map<Key, S>,
    context: Context,
    key: Key,
    timestamp_nanos: u128,
    after: Map<Key, S>,
    context_after: Context,
) -> bool {
    &&& changed_at(before, key, after)
    &&& before[key].entered(context, timestamp_nanos, &after[key], context_after)
}

/// `on_exit` ran on the state under `key`, and on nothing else.
pub open spec fn exited_at<Context, Key: StateKey, S: State<Context, Key>>(
    before: Map<Key, S>,
    context: Context,
    key: Key,
    timestamp_nanos: u128,
    time_in_state: Duration,
    after: Map<Key, S>,
    context_after: Context,
) -> bool {
    &&& changed_at(before, key, after)
    &&& before[key].exited(
        context,
        timestamp_nanos,
        time_in_state,
        &after[key],
        context_after,
    )
}

/// `do_state_action` ran on the state under `key`, and on nothing else.
pub open spec fn acted_at<Context, Key: StateKey, S: State<Context, Key>>(
    before: Map<Key, S>,
    context: Context,
    key: Key,
    timestamp_nanos: u128,
    time_in_state: Duration,
    after: Map<Key, S>,
    context_after: Context,
) -> bool {
    &&& changed_at(before, key, after)
    &&& before[key].acted(
        context,
        timestamp_nanos,
        time_in_state,
        &after[key],
        context_after,
    )
}

/// The context on which the condition at `index` is asked: the one that the
/// condition before it left, or `start` for the first.
pub open spec fn context_before<Context, Key>(
    evaluations: Seq<(Context, Option<Key>)>,
    start: Context,
    index: int,
) -> Context {
    if index <= 0 {
        start
    } else {
        evaluations[index - 1].0
    }
}

/// The answer that ended the evaluation: the destination of the last
/// condition asked, if it gave one.
pub open spec fn fired<Context, Key>(evaluations: Seq<(Context, Option<Key>)>) -> Option<Key> {
    if evaluations.len() == 0 {
        None
    } else {
        evaluations.last().1
    }
}

/// The conditions were asked in the order of their registration, each on the
/// context that the one before it left, and asking stopped with the first
/// that named a destination.
pub open spec fn evaluated<Context, Key: StateKey, T: TransitionCondition<Context, Key>>(
    conditions: Seq<T>,
    start: Context,
    requested: Option<Key>,
    time_in_state_nanos: u128,
    evaluations: Seq<(Context, Option<Key>)>,
) -> bool {
    &&& evaluations.len() <= conditions.len()
    &&& forall|i: int|
        #![trigger evaluations[i]]
        #![trigger conditions[i]]
        0 <= i < evaluations.len() ==> conditions[i].decides(
            context_before(evaluations, start, i),
            requested,
            time_in_state_nanos,
            evaluations[i].0,
            evaluations[i].1,
        )
    &&& forall|i: int| 0 <= i < evaluations.len() - 1 ==> (#[trigger] evaluations[i]).1 is None
    &&& fired(evaluations) is None ==> evaluations.len() == conditions.len()
}

/// One tick at `time_nanos`, from `pre` and `context` to `post` and
/// `context_after`, through the values in `run`.
///
/// `missed` says that a state that the tick needed was not registered: the
/// current one at the start, or the destination of the condition that fired.
/// The tick then stops where it stands.
pub open spec fn tick_through<
    Context,
    Key: StateKey,
    S: State<Context, Key>,
    T: TransitionCondition<Context, Key>,
>(
    pre: MachineView<Key, S, T>,
    context: Context,
    time_nanos: u128,
    run: TickRun<Context, Key, S>,
    post: MachineView<Key, S, T>,
    context_after: Context,
    missed: bool,
) -> bool {
    let current = pre.current_state;
    let time_in_state = elapsed_nanos(pre.current_state_start_time, time_nanos);
    if !pre.states.contains_key(current) {
        &&& missed
        &&& context_after == context
        &&& post == if pre.first_tick {
            pre
        } else {
            pre.without_request()
        }
    } else {
        &&& if pre.first_tick {
            entered_at(
                pre.states,
                context,
                current,
                time_nanos,
                run.entered_states,
                run.entered_context,
            )
        } else {
            run.entered_states == pre.states && run.entered_context == context
        }
        &&& evaluated(
            pre.conditions_of(current),
            run.entered_context,
            pre.user_requested_state,
            time_in_state as u128,
            run.evaluations,
        )
        &&& match fired(run.evaluations) {
            None => {
                &&& !missed
                &&& acted_at(
                    run.entered_states,
                    context_before(
                        run.evaluations,
                        run.entered_context,
                        run.evaluations.len() as int,
                    ),
                    current,
                    time_nanos,
                    duration_of_nanos(time_in_state),
                    post.states,
                    context_after,
                )
                &&& post == MachineView {
                    first_tick: false,
                    user_requested_state: None,
                    states: post.states,
                    ..pre
                }
            },
            Some(destination) => {
                &&& exited_at(
                    run.entered_states,
                    context_before(
                        run.evaluations,
                        run.entered_context,
                        run.evaluations.len() as int,
                    ),
                    current,
                    time_nanos,
                    duration_of_nanos(time_in_state),
                    run.exited_states,
                    run.exited_context,
                )
                &&& post == MachineView {
                    current_state: destination,
                    current_state_start_time: time_nanos,
                    first_tick: false,
                    user_requested_state: None,
                    states: post.states,
                    ..pre
                }
                &&& if run.exited_states.contains_key(destination) {
                    &&& !missed
                    &&& entered_at(
                        run.exited_states,
                        run.exited_context,
                        destination,
                        time_nanos,
                        run.arrived_states,
                        run.arrived_context,
                    )
                    &&& acted_at(
                        run.arrived_states,
                        run.arrived_context,
                        destination,
                        time_nanos,
                        duration_of_nanos(0),
                        post.states,
                        context_after,
                    )
                } else {
                    &&& missed
                    &&& post.states == run.exited_states
                    &&& context_after == run.exited_context
                }
            },
        }
    }
}

/// One tick at `time_nanos` leads from `pre` and `context` to `post` and
/// `context_after`.
pub open spec fn ticked<
    Context,
    Key: StateKey,
    S: State<Context, Key>,
    T: TransitionCondition<Context, Key>,
>(
    pre: MachineView<Key, S, T>,
    context: Context,
    time_nanos: u128,
    post: MachineView<Key, S, T>,
    context_after: Context,
    missed: bool,
) -> bool {
    exists|run: TickRun<Context, Key, S>| #[trigger]
        tick_through(pre, context, time_nanos, run, post, context_after, missed)
}

/// A reset at `time_nanos` leads from `pre` and `context` to `post` and
/// `context_after`: the current state is left, the initial state becomes the
/// current one, and its `on_enter` waits for the next tick. Where the current
/// state is not registered, nothing happens.
pub open spec fn reset_to_initial<
    Context,
    Key: StateKey,
    S: State<Context, Key>,
    T: TransitionCondition<Context, Key>,
>(
    pre: MachineView<Key, S, T>,
    context: Context,
    time_nanos: u128,
    post: MachineView<Key, S, T>,
    context_after: Context,
) -> bool {
    if pre.states.contains_key(pre.current_state) {
        &&& exited_at(
            pre.states,
            context,
            pre.current_state,
            time_nanos,
            duration_of_nanos(elapsed_nanos(pre.current_state_start_time, time_nanos)),
            post.states,
            context_after,
        )
        &&& post == MachineView {
            current_state: pre.initial_state,
            current_state_start_time: time_nanos,
            first_tick: true,
            states: post.states,
            ..pre
        }
    } else {
        post == pre && context_after == context
    }
}

/// Whatever destination a condition of the current state can name is
/// registered.
pub open spec fn destinations_registered<
    Context,
    Key: StateKey,
    S: State<Context, Key>,
    T: TransitionCondition<Context, Key>,
>(view: MachineView<Key, S, T>) -> bool {
    forall|
        i: int,
        context: Context,
        requested: Option<Key>,
        nanos: u128,
        context_after: Context,
        destination: Key,
    |
        0 <= i < view.conditions_of(view.current_state).len() && #[trigger] view.conditions_of(
            view.current_state,
        )[i].decides(context, requested, nanos, context_after, Some(destination))
            ==> view.states.contains_key(destination)
}

/// How adding a state under `key` ends, for a machine that holds at most
/// `limit` states (any number where `limit` is `None`).
pub open spec fn add_state_outcome<Key: StateKey, S, T>(
    view: MachineView<Key, S, T>,
    key: Key,
    limit: Option<nat>,
) -> Result<(), StateMachineError<Key>> {
    if view.states.contains_key(key) {
        Err(StateMachineError::StateAlreadyRegistered(key))
    } else if limit is Some && view.states.dom().len() >= limit->0 {
        Err(StateMachineError::StackBufferFull)
    } else {
        Ok(())
    }
}

/// How adding a condition for `from` ends, for a machine that holds at most
/// `limit` conditions per state (any number where `limit` is `None`).
pub open spec fn add_condition_outcome<Key: StateKey, S, T>(
    view: MachineView<Key, S, T>,
    from: Key,
    limit: Option<nat>,
) -> Result<(), StateMachineError<Key>> {
    if !view.states.contains_key(from) {
        Err(StateMachineError::TransitionStartStateNotRegistered(from))
    } else if limit is Some && view.conditions_of(from).len() >= limit->0 {
        Err(StateMachineError::StackAllocationError)
    } else {
        Ok(())
    }
}

/// Adding `condition` for each key of `from` in turn, up to the first key
/// that is refused: the machine that this leaves, and how it ends. What was
/// added before the refusal stays.
pub open spec fn add_conditions<Key: StateKey, S, T>(
    view: MachineView<Key, S, T>,
    from: Seq<Key>,
    condition: T,
    limit: Option<nat>,
) -> (MachineView<Key, S, T>, Result<(), StateMachineError<Key>>)
    decreases from.len(),
{
    if from.len() == 0 {
        (view, Ok(()))
    } else {
        match add_condition_outcome(view, from[0], limit) {
            Ok(_) => add_conditions(
                view.with_condition(from[0], condition),
                from.drop_first(),
                condition,
                limit,
            ),
            Err(error) => (view, Err(error)),
        }
    }
}

} // verus!
