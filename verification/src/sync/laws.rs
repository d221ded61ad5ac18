use crate::sync::model::{add_condition_outcome, add_state_outcome, reset_to_initial};
use crate::sync::model::{entered_at, evaluated, exited_at, fired, tick_through};
use crate::sync::model::{MachineView, TickRun};
use crate::sync::state::State;
use crate::sync::timing::{duration_of_nanos, elapsed_nanos};
use crate::sync::transition::TransitionCondition;
use crate::{StateKey, StateMachineError};
use vstd::prelude::*;

verus! {

/// A machine just built is in its initial state and has entered nothing yet:
/// it holds the state it was given, as it was given, and waits for its first
/// tick. Registering further states and conditions changes none of this.
pub proof fn law_new_machine_waits_in_initial_state<Key, S, T>(
    key: Key,
    state: S,
    other_key: Key,
    other: S,
    from: Key,
    condition: T,
)
    ensures
        MachineView::<Key, S, T>::fresh(key, state).current_state == key,
        MachineView::<Key, S, T>::fresh(key, state).first_tick,
        MachineView::<Key, S, T>::fresh(key, state).states[key] == state,
        ({
            let later = MachineView::<Key, S, T>::fresh(key, state).with_state(
                other_key,
                other,
            ).with_condition(from, condition);
            later.current_state == key && later.first_tick
        }),
{
}

/// The first tick of a machine whose current state is registered enters that
/// state once, at the tick's timestamp and whatever that timestamp is, before
/// any condition is asked: the conditions see the context that `on_enter`
/// left. The machine then no longer waits for a first tick. A later tick
/// enters nothing before it asks.
pub proof fn law_first_tick_enters_before_asking<Context, Key, S, T>(
    pre: MachineView<Key, S, T>,
    context: Context,
    time_nanos: u128,
    run: TickRun<Context, Key, S>,
    post: MachineView<Key, S, T>,
    context_after: Context,
    missed: bool,
) where Key: StateKey, S: State<Context, Key>, T: TransitionCondition<Context, Key>
    requires
        tick_through(pre, context, time_nanos, run, post, context_after, missed),
        pre.states.contains_key(pre.current_state),
    ensures
        !post.first_tick,
        pre.first_tick ==> entered_at(
            pre.states,
            context,
            pre.current_state,
            time_nanos,
            run.entered_states,
            run.entered_context,
        ),
        !pre.first_tick ==> run.entered_states == pre.states && run.entered_context == context,
        evaluated(
            pre.conditions_of(pre.current_state),
            run.entered_context,
            pre.user_requested_state,
            elapsed_nanos(pre.current_state_start_time, time_nanos) as u128,
            run.evaluations,
        ),
{
}

/// First match wins: once a condition names a destination, no condition
/// behind it is asked, and that destination is the one that fired. Every
/// condition before it was asked and declined.
pub proof fn law_first_match_wins<Context, Key, T>(
    conditions: Seq<T>,
    start: Context,
    requested: Option<Key>,
    time_in_state_nanos: u128,
    evaluations: Seq<(Context, Option<Key>)>,
    asked: int,
) where Key: StateKey, T: TransitionCondition<Context, Key>
    requires
        evaluated(conditions, start, requested, time_in_state_nanos, evaluations),
        0 <= asked < evaluations.len(),
        evaluations[asked].1 is Some,
    ensures
        evaluations.len() == asked + 1,
        fired(evaluations) == evaluations[asked].1,
        forall|i: int| 0 <= i < asked ==> (#[trigger] evaluations[i]).1 is None,
{
    if asked < evaluations.len() - 1 {
        assert(evaluations[asked].1 is None);
    }
}

/// A tick makes at most one transition: where a condition fired, its
/// destination is the current state afterwards and the time in state starts
/// anew at the tick's timestamp; where none fired, the machine stays where it
/// was. Either way the user's request is used up.
pub proof fn law_tick_follows_what_fired<Context, Key, S, T>(
    pre: MachineView<Key, S, T>,
    context: Context,
    time_nanos: u128,
    run: TickRun<Context, Key, S>,
    post: MachineView<Key, S, T>,
    context_after: Context,
    missed: bool,
) where Key: StateKey, S: State<Context, Key>, T: TransitionCondition<Context, Key>
    requires
        tick_through(pre, context, time_nanos, run, post, context_after, missed),
        pre.states.contains_key(pre.current_state),
    ensures
        post.user_requested_state is None,
        post.initial_state == pre.initial_state,
        post.transitions == pre.transitions,
        post.states.dom() == pre.states.dom(),
        match fired(run.evaluations) {
            Some(destination) => {
                &&& post.current_state == destination
                &&& post.current_state_start_time == time_nanos
                &&& missed == !pre.states.contains_key(destination)
            },
            None => {
                &&& post.current_state == pre.current_state
                &&& post.current_state_start_time == pre.current_state_start_time
                &&& !missed
            },
        },
{
    assert(run.entered_states.dom() =~= pre.states.dom());
    match fired(run.evaluations) {
        Some(destination) => {
            assert(run.exited_states.dom() =~= pre.states.dom());
            if run.exited_states.contains_key(destination) {
                assert(run.arrived_states.dom() =~= pre.states.dom());
            }
            assert(post.states.dom() =~= pre.states.dom());
        },
        None => {
            assert(post.states.dom() =~= pre.states.dom());
        },
    }
}

/// A reset leaves the current state, whichever it is, and enters nothing:
/// the initial state is current afterwards, and it is the tick after the
/// reset that enters it.
pub proof fn law_reset_leaves_now_and_enters_on_next_tick<Context, Key, S, T>(
    pre: MachineView<Key, S, T>,
    context: Context,
    reset_nanos: u128,
    between: MachineView<Key, S, T>,
    context_between: Context,
    tick_nanos: u128,
    run: TickRun<Context, Key, S>,
    post: MachineView<Key, S, T>,
    context_after: Context,
    missed: bool,
) where Key: StateKey, S: State<Context, Key>, T: TransitionCondition<Context, Key>
    requires
        pre.states.contains_key(pre.current_state),
        pre.states.contains_key(pre.initial_state),
        reset_to_initial(pre, context, reset_nanos, between, context_between),
        tick_through(between, context_between, tick_nanos, run, post, context_after, missed),
    ensures
        exited_at(
            pre.states,
            context,
            pre.current_state,
            reset_nanos,
            duration_of_nanos(elapsed_nanos(pre.current_state_start_time, reset_nanos)),
            between.states,
            context_between,
        ),
        between.current_state == pre.initial_state,
        between.current_state_start_time == reset_nanos,
        between.first_tick,
        entered_at(
            between.states,
            context_between,
            pre.initial_state,
            tick_nanos,
            run.entered_states,
            run.entered_context,
        ),
{
    assert(between.states.dom() =~= pre.states.dom());
}

/// A key that is taken is refused as such, whatever the limit, and a key
/// that is free is refused only by a machine that is full.
pub proof fn law_add_state_refusals<Key: StateKey, S, T>(
    view: MachineView<Key, S, T>,
    key: Key,
    limit: Option<nat>,
)
    ensures
        view.states.contains_key(key) <==> add_state_outcome(view, key, limit) == Err::<
            (),
            StateMachineError<Key>,
        >(StateMachineError::StateAlreadyRegistered(key)),
        add_state_outcome(view, key, limit) == Err::<(), StateMachineError<Key>>(
            StateMachineError::StackBufferFull,
        ) <==> !view.states.contains_key(key) && limit is Some && view.states.dom().len()
            >= limit->0,
        add_state_outcome(view, key, None) is Ok <==> !view.states.contains_key(key),
{
}

/// A condition for a state that is not registered is refused as such,
/// whatever the limit, and one for a registered state is refused only where
/// that state's list is full.
pub proof fn law_add_condition_refusals<Key: StateKey, S, T>(
    view: MachineView<Key, S, T>,
    from: Key,
    limit: Option<nat>,
)
    ensures
        !view.states.contains_key(from) <==> add_condition_outcome(view, from, limit) == Err::<
            (),
            StateMachineError<Key>,
        >(StateMachineError::TransitionStartStateNotRegistered(from)),
        add_condition_outcome(view, from, limit) == Err::<(), StateMachineError<Key>>(
            StateMachineError::StackAllocationError,
        ) <==> view.states.contains_key(from) && limit is Some && view.conditions_of(from).len()
            >= limit->0,
        add_condition_outcome(view, from, None) is Ok <==> view.states.contains_key(from),
{
}

/// The limits are exact. A machine within its limits takes a new state
/// exactly while it holds fewer than `max_states`, and each state taken
/// counts once; it takes a condition for a registered state exactly while
/// that state has fewer than `max_conditions`, and each condition taken
/// counts once. What it takes keeps it within its limits.
pub proof fn law_limits_are_exact<Key: StateKey, S, T>(
    view: MachineView<Key, S, T>,
    key: Key,
    state: S,
    from: Key,
    condition: T,
    max_states: nat,
    max_conditions: nat,
)
    requires
        view.within_limits(max_states, max_conditions),
        !view.states.contains_key(key),
        view.states.contains_key(from),
    ensures
        add_state_outcome(view, key, Some(max_states)) is Ok <==> view.states.dom().len()
            < max_states,
        view.states.dom().len() == max_states ==> add_state_outcome(view, key, Some(max_states))
            == Err::<(), StateMachineError<Key>>(StateMachineError::StackBufferFull),
        view.with_state(key, state).states.dom().len() == view.states.dom().len() + 1,
        add_state_outcome(view, key, Some(max_states)) is Ok ==> view.with_state(
            key,
            state,
        ).within_limits(max_states, max_conditions),
        add_condition_outcome(view, from, Some(max_conditions)) is Ok <==> view.conditions_of(
            from,
        ).len() < max_conditions,
        view.conditions_of(from).len() == max_conditions ==> add_condition_outcome(
            view,
            from,
            Some(max_conditions),
        ) == Err::<(), StateMachineError<Key>>(StateMachineError::StackAllocationError),
        view.with_condition(from, condition).conditions_of(from).len() == view.conditions_of(
            from,
        ).len() + 1,
        add_condition_outcome(view, from, Some(max_conditions)) is Ok ==> view.with_condition(
            from,
            condition,
        ).within_limits(max_states, max_conditions),
{
    let more = view.with_state(key, state);
    assert(more.states.dom() =~= view.states.dom().insert(key));
    assert forall|k: Key| #[trigger] more.conditions_of(k) == view.conditions_of(k) by {}
    let longer = view.with_condition(from, condition);
    assert forall|k: Key| #[trigger]
        longer.conditions_of(k).len() <= (if k == from {
            view.conditions_of(from).len() + 1
        } else {
            view.conditions_of(k).len()
        }) by {}
    if add_condition_outcome(view, from, Some(max_conditions)) is Ok {
        assert forall|k: Key| #[trigger] longer.conditions_of(k).len() <= max_conditions by {
            assert(view.conditions_of(k).len() <= max_conditions);
        }
        assert(longer.transitions.dom() =~= view.transitions.dom().insert(from));
    }
}

} // verus!
