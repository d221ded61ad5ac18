use crate::sync::bounded::table::{lemma_pairing_len, lemma_pairing_update, Table};
use crate::sync::evaluation::first_destination;
use crate::sync::model::{acted_at, entered_at, exited_at, tick_through};
use crate::sync::model::{add_condition_outcome, add_conditions, add_state_outcome};
use crate::sync::model::{reset_to_initial, ticked, MachineView, TickRun};
use crate::sync::state::State;
use crate::sync::timing::{time_in_state, MonotonicTimestamp};
use crate::sync::transition::TransitionCondition;
use crate::{StateKey, StateMachineError, StateMachineResult};
use std::marker::PhantomData;
use std::time::Duration;
use vstd::laws_eq::obeys_concrete_eq;
use vstd::prelude::*;
use vstd::set_lib::lemma_len_subset;

verus! {

/// Calls `on_enter` on the state at place `i` of `states`.
fn enter_state<Context, Key, S, const N: usize>(
    states: &mut Table<Key, S, N>,
    i: usize,
    context: &mut Context,
    time_nanos: MonotonicTimestamp,
) where Key: StateKey, S: State<Context, Key>
    requires
        old(states).inv(),
        i < old(states).keys@.len(),
    ensures
        final(states).inv(),
        final(states).keys@ == old(states).keys@,
        entered_at(
            old(states).entries(),
            *old(context),
            old(states).keys@[i as int],
            time_nanos,
            final(states).entries(),
            *final(context),
        ),
{
    states.values[i].on_enter(context, time_nanos);
    proof {
        assert(states.values@ =~= old(states).values@.update(i as int, states.values@[i as int]));
        Table::lemma_replaced(old(states), states, i as int);
    }
}

/// Calls `on_exit` on the state at place `i` of `states`.
fn leave_state<Context, Key, S, const N: usize>(
    states: &mut Table<Key, S, N>,
    i: usize,
    context: &mut Context,
    time_nanos: MonotonicTimestamp,
    time_in_state: Duration,
) where Key: StateKey, S: State<Context, Key>
    requires
        old(states).inv(),
        i < old(states).keys@.len(),
    ensures
        final(states).inv(),
        final(states).keys@ == old(states).keys@,
        exited_at(
            old(states).entries(),
            *old(context),
            old(states).keys@[i as int],
            time_nanos,
            time_in_state,
            final(states).entries(),
            *final(context),
        ),
{
    states.values[i].on_exit(context, time_nanos, time_in_state);
    proof {
        assert(states.values@ =~= old(states).values@.update(i as int, states.values@[i as int]));
        Table::lemma_replaced(old(states), states, i as int);
    }
}

/// Calls `do_state_action` on the state at place `i` of `states`.
fn act_in_state<Context, Key, S, const N: usize>(
    states: &mut Table<Key, S, N>,
    i: usize,
    context: &mut Context,
    time_nanos: MonotonicTimestamp,
    time_in_state: Duration,
) where Key: StateKey, S: State<Context, Key>
    requires
        old(states).inv(),
        i < old(states).keys@.len(),
    ensures
        final(states).inv(),
        final(states).keys@ == old(states).keys@,
        acted_at(
            old(states).entries(),
            *old(context),
            old(states).keys@[i as int],
            time_nanos,
            time_in_state,
            final(states).entries(),
            *final(context),
        ),
{
    states.values[i].do_state_action(context, time_nanos, time_in_state);
    proof {
        assert(states.values@ =~= old(states).values@.update(i as int, states.values@[i as int]));
        Table::lemma_replaced(old(states), states, i as int);
    }
}

/// A state machine with fixed limits: it holds at most `NUM_STATES` states
/// and, for each of them, at most `MAX_TRANSITIONS_PER_STATE` conditions.
#[verifier::reject_recursive_types(Context)]
#[verifier::reject_recursive_types(Key)]
#[verifier::reject_recursive_types(S)]
#[verifier::reject_recursive_types(T)]
pub struct StateMachine<
    Context,
    Key,
    S,
    T,
    const NUM_STATES: usize,
    const MAX_TRANSITIONS_PER_STATE: usize,
> where Key: StateKey, S: State<Context, Key>, T: TransitionCondition<Context, Key> + Copy {
    initial_state: Key,
    current_state: Key,
    transitions: Table<Key, Vec<T>, NUM_STATES>,
    states: Table<Key, S, NUM_STATES>,
    current_state_start_time: MonotonicTimestamp,
    first_tick: bool,
    user_requested_state: Option<Key>,
    context: PhantomData<Context>,
}

impl<
    Context,
    Key,
    S,
    T,
    const NUM_STATES: usize,
    const MAX_TRANSITIONS_PER_STATE: usize,
> View for StateMachine<Context, Key, S, T, NUM_STATES, MAX_TRANSITIONS_PER_STATE> where
    Key: StateKey,
    S: State<Context, Key>,
    T: TransitionCondition<Context, Key> + Copy,
 {
    type V = MachineView<Key, S, T>;

    closed spec fn view(&self) -> MachineView<Key, S, T> {
        MachineView {
            initial_state: self.initial_state,
            current_state: self.current_state,
            current_state_start_time: self.current_state_start_time,
            first_tick: self.first_tick,
            user_requested_state: self.user_requested_state,
            states: self.states.entries(),
            transitions: self.transitions.entries().map_values(|list: Vec<T>| list@),
        }
    }
}

impl<
    Context,
    Key,
    S,
    T,
    const NUM_STATES: usize,
    const MAX_TRANSITIONS_PER_STATE: usize,
> StateMachine<Context, Key, S, T, NUM_STATES, MAX_TRANSITIONS_PER_STATE> where
    Key: StateKey,
    S: State<Context, Key>,
    T: TransitionCondition<Context, Key> + Copy,
 {
    /// How the machine keeps its states and conditions.
    pub closed spec fn inv(&self) -> bool {
        &&& obeys_concrete_eq::<Key>()
        &&& self.states.inv()
        &&& self.transitions.inv()
        &&& forall|i: int|
            0 <= i < self.transitions.values@.len() ==> (#[trigger] self.transitions.values@[i]).len()
                <= MAX_TRANSITIONS_PER_STATE
    }

    /// What every machine that this module hands out satisfies.
    pub open spec fn wf(&self) -> bool {
        &&& self.inv()
        &&& self@.within_limits(NUM_STATES as nat, MAX_TRANSITIONS_PER_STATE as nat)
    }

    /// From the way the machine is kept to the limits of its view.
    proof fn lemma_limits(&self)
        requires
            self.inv(),
            self@.states.contains_key(self@.initial_state),
            self@.transitions.dom().subset_of(self@.states.dom()),
        ensures
            self.wf(),
    {
        lemma_pairing_len(self.states.keys@, self.states.values@);
        assert forall|key: Key| #[trigger]
            self@.conditions_of(key).len() <= MAX_TRANSITIONS_PER_STATE by {
            if self@.transitions.contains_key(key) {
                let i = self.transitions.keys@.index_of(key);
                assert(self.transitions.values@[i].len() <= MAX_TRANSITIONS_PER_STATE);
            }
        }
    }

    /// A machine that holds `initial_state` alone and waits for its first tick.
    pub fn new_state_machine(initial_state: S) -> (machine: Self)
        requires
            NUM_STATES >= 1,
            obeys_concrete_eq::<Key>(),
        ensures
            machine.wf(),
            machine@ == MachineView::<Key, S, T>::fresh(initial_state.key(), initial_state),
    {
        let mut states: Table<Key, S, NUM_STATES> = Table::new();
        let state_key = initial_state.state_key();
        let ghost first = initial_state;
        let added = states.insert_new(state_key, initial_state);
        let machine = StateMachine {
            initial_state: state_key,
            current_state: state_key,
            transitions: Table::new(),
            states,
            current_state_start_time: 0,
            first_tick: true,
            user_requested_state: None,
            context: PhantomData,
        };
        proof {
            assert(machine@.transitions =~= Map::empty());
            assert(machine@.states == Map::<Key, S>::empty().insert(state_key, first));
            machine.lemma_limits();
        }
        machine
    }

    /// Stores `requested_state` as the user's request, over any earlier one.
    pub fn request_transition_from_user(&mut self, requested_state: Key)
        ensures
            final(self)@ == old(self)@.with_request(requested_state),
            old(self).wf() ==> final(self).wf(),
    {
        self.user_requested_state = Some(requested_state);
    }

    /// The key of the current state.
    pub fn current_state(&self) -> (key: Key)
        ensures
            key == self@.current_state,
    {
        self.current_state
    }

    /// Registers `state_to_add` under its own key, unless that key is taken or
    /// the machine is full.
    pub fn add_state(&mut self, state_to_add: S) -> (result: StateMachineResult<(), Key>)
        requires
            old(self).wf(),
        ensures
            final(self).wf(),
            result == add_state_outcome(
                old(self)@,
                state_to_add.key(),
                Some(NUM_STATES as nat),
            ),
            final(self)@ == if result is Ok {
                old(self)@.with_state(state_to_add.key(), state_to_add)
            } else {
                old(self)@
            },
    {
        let key = state_to_add.state_key();
        match self.states.position(&key) {
            None => match self.states.insert_new(key, state_to_add) {
                Ok(_) => {
                    proof {
                        self.lemma_limits();
                    }
                    Ok(())
                },
                Err(_) => Err(StateMachineError::StackBufferFull),
            },
            Some(_) => Err(StateMachineError::StateAlreadyRegistered(key)),
        }
    }

    /// Adds `transition` behind the conditions of `from`, which must be a
    /// registered state whose list of conditions is not full.
    pub fn add_transition_condition(&mut self, from: Key, transition: T) -> (result:
        StateMachineResult<(), Key>)
        requires
            old(self).wf(),
        ensures
            final(self).wf(),
            result == add_condition_outcome(
                old(self)@,
                from,
                Some(MAX_TRANSITIONS_PER_STATE as nat),
            ),
            final(self)@ == if result is Ok {
                old(self)@.with_condition(from, transition)
            } else {
                old(self)@
            },
    {
        if self.states.position(&from).is_none() {
            return Err(StateMachineError::TransitionStartStateNotRegistered(from));
        }
        match self.transitions.position(&from) {
            Some(i) => {
                if self.transitions.values[i].len() >= MAX_TRANSITIONS_PER_STATE {
                    return Err(StateMachineError::StackAllocationError);
                }
                self.transitions.values[i].push(transition);
                proof {
                    let lists = old(self).transitions.values@;
                    let longer = self.transitions.values@[i as int];
                    assert(self.transitions.values@ =~= lists.update(i as int, longer));
                    lemma_pairing_update(self.transitions.keys@, lists, i as int, longer);
                    assert(self@.transitions =~= old(self)@.with_condition(
                        from,
                        transition,
                    ).transitions);
                    self.lemma_limits();
                }
                Ok(())
            },
            None => {
                if MAX_TRANSITIONS_PER_STATE == 0 {
                    return Err(StateMachineError::StackAllocationError);
                }
                let mut list: Vec<T> = Vec::with_capacity(MAX_TRANSITIONS_PER_STATE);
                list.push(transition);
                proof {
                    let taken = self@.transitions.dom();
                    lemma_pairing_len(self.transitions.keys@, self.transitions.values@);
                    lemma_pairing_len(self.states.keys@, self.states.values@);
                    assert(taken =~= self.transitions.entries().dom());
                    lemma_len_subset(taken.insert(from), self@.states.dom());
                }
                match self.transitions.insert_new(from, list) {
                    Ok(_) => {
                        proof {
                            assert(self@.transitions =~= old(self)@.with_condition(
                                from,
                                transition,
                            ).transitions);
                            assert forall|j: int|
                                0 <= j < self.transitions.values@.len() implies (
                            #[trigger] self.transitions.values@[j]).len()
                                <= MAX_TRANSITIONS_PER_STATE by {
                                if j < old(self).transitions.values@.len() {
                                    assert(self.transitions.values@[j] == old(
                                        self,
                                    ).transitions.values@[j]);
                                }
                            }
                            self.lemma_limits();
                        }
                        Ok(())
                    },
                    Err(_) => Err(StateMachineError::StackAllocationError),
                }
            },
        }
    }

    /// Adds `transition` for each key of `from` in turn and stops at the first
    /// key that is refused; what was added before it stays.
    pub fn add_transition_condition_bulk(&mut self, from: &[Key], transition: T) -> (result:
        StateMachineResult<(), Key>)
        requires
            old(self).wf(),
        ensures
            final(self).wf(),
            (final(self)@, result) == add_conditions(
                old(self)@,
                from@,
                transition,
                Some(MAX_TRANSITIONS_PER_STATE as nat),
            ),
    {
        let mut i: usize = 0;
        assert(from@.skip(0) =~= from@);
        while i < from.len()
            invariant
                i <= from.len(),
                self.wf(),
                add_conditions(
                    old(self)@,
                    from@,
                    transition,
                    Some(MAX_TRANSITIONS_PER_STATE as nat),
                ) == add_conditions(
                    self@,
                    from@.skip(i as int),
                    transition,
                    Some(MAX_TRANSITIONS_PER_STATE as nat),
                ),
            decreases from.len() - i,
        {
            let ghost rest = from@.skip(i as int);
            assert(rest[0] == from@[i as int]);
            assert(rest.drop_first() =~= from@.skip(i + 1));
            match self.add_transition_condition(from[i], transition) {
                Ok(_) => {},
                Err(error) => {
                    return Err(error);
                },
            }
            i += 1;
        }
        assert(from@.skip(i as int).len() == 0);
        Ok(())
    }

    /// Leaves the current state and makes the initial state the current one.
    /// That state's `on_enter` waits for the next tick. Where the current
    /// state is not registered, nothing happens.
    pub fn reset(&mut self, context: &mut Context, time_nanos: MonotonicTimestamp)
        requires
            old(self).wf(),
            old(self)@.current_state_start_time <= time_nanos,
        ensures
            final(self).wf(),
            reset_to_initial(
                old(self)@,
                *old(context),
                time_nanos,
                final(self)@,
                *final(context),
            ),
    {
        match self.states.position(&self.current_state) {
            Some(i) => {
                let spent = time_in_state(self.current_state_start_time, time_nanos);
                leave_state(&mut self.states, i, context, time_nanos, spent);
                self.current_state_start_time = time_nanos;
                self.current_state = self.initial_state;
                self.first_tick = true;
                proof {
                    self.lemma_limits();
                }
            },
            None => {},
        }
    }

    /// One tick: enters the current state if it was not entered yet, asks
    /// its conditions in order, follows the first that names a destination,
    /// and lets the state that is then current act. Where the current state,
    /// or the destination, is not registered, the tick stops there with
    /// `HashMapMiss`.
    pub fn check_transition_and_do_action(
        &mut self,
        context: &mut Context,
        time_nanos: MonotonicTimestamp,
    ) -> (result: StateMachineResult<(), Key>)
        requires
            old(self).wf(),
            old(self)@.current_state_start_time <= time_nanos,
        ensures
            final(self).wf(),
            ticked(
                old(self)@,
                *old(context),
                time_nanos,
                final(self)@,
                *final(context),
                result is Err,
            ),
            result is Err ==> result == Err::<(), StateMachineError<Key>>(StateMachineError::HashMapMiss),
    {
        let ghost pre = self@;
        let ghost start_context = *context;
        let current = self.current_state;
        let spent = time_in_state(self.current_state_start_time, time_nanos);
        let ghost mut run = TickRun {
            entered_states: pre.states,
            entered_context: start_context,
            evaluations: Seq::empty(),
            exited_states: pre.states,
            exited_context: start_context,
            arrived_states: pre.states,
            arrived_context: start_context,
        };
        let place = match self.states.position(&current) {
            Some(place) => place,
            None => {
                if !self.first_tick {
                    self.user_requested_state = None;
                }
                assert(tick_through(pre, start_context, time_nanos, run, self@, *context, true));
                return Err(StateMachineError::HashMapMiss);
            },
        };
        if self.first_tick {
            enter_state(&mut self.states, place, context, time_nanos);
            self.first_tick = false;
        }
        let requested = self.user_requested_state.take();
        proof {
            run.entered_states = self.states.entries();
            run.entered_context = *context;
        }
        let (destination, evaluations) = match self.transitions.position(&current) {
            Some(at) => first_destination(
                &self.transitions.values[at],
                context,
                &requested,
                spent.as_nanos(),
            ),
            None => (None, Ghost(Seq::empty())),
        };
        proof {
            run.evaluations = evaluations@;
        }
        match destination {
            None => {
                act_in_state(&mut self.states, place, context, time_nanos, spent);
                proof {
                    self.lemma_limits();
                    assert(tick_through(
                        pre,
                        start_context,
                        time_nanos,
                        run,
                        self@,
                        *context,
                        false,
                    ));
                }
                Ok(())
            },
            Some(new_state) => {
                leave_state(&mut self.states, place, context, time_nanos, spent);
                self.current_state_start_time = time_nanos;
                self.current_state = new_state;
                proof {
                    run.exited_states = self.states.entries();
                    run.exited_context = *context;
                    self.lemma_limits();
                }
                match self.states.position(&new_state) {
                    Some(arrival) => {
                        enter_state(&mut self.states, arrival, context, time_nanos);
                        proof {
                            run.arrived_states = self.states.entries();
                            run.arrived_context = *context;
                        }
                        act_in_state(&mut self.states, arrival, context, time_nanos, Duration::from_nanos(0));
                        proof {
                            self.lemma_limits();
                            assert(tick_through(
                                pre,
                                start_context,
                                time_nanos,
                                run,
                                self@,
                                *context,
                                false,
                            ));
                        }
                        Ok(())
                    },
                    None => {
                        assert(tick_through(
                            pre,
                            start_context,
                            time_nanos,
                            run,
                            self@,
                            *context,
                            true,
                        ));
                        Err(StateMachineError::HashMapMiss)
                    },
                }
            },
        }
    }
}

} // verus!
