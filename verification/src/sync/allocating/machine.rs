use crate::sync::evaluation::first_destination;
use crate::sync::model::{add_condition_outcome, add_conditions, add_state_outcome};
use crate::sync::model::{destinations_registered, reset_to_initial, ticked, MachineView, TickRun};
use crate::sync::model::{acted_at, context_before, entered_at, exited_at, tick_through};
use crate::sync::state::State;
use crate::sync::timing::{duration_as_nanos, time_in_state, MonotonicTimestamp};
use crate::sync::transition::TransitionCondition;
use crate::{StateKey, StateMachineError, StateMachineSetupResult};
use std::collections::hash_map::Entry;
use std::collections::HashMap;
use std::marker::PhantomData;
use std::time::Duration;
use vstd::prelude::*;
use vstd::std_specs::hash::{builds_valid_hashers, obeys_key_model};

verus! {

/// ahash's hash builder. It is carried through as it is; nothing is known of
/// what it holds.
#[verifier::external_type_specification]
#[verifier::external_body]
pub struct ExRandomState(ahash::RandomState);

/// What the contracts of `HashMap` ask of the hash builder that `map` holds:
/// the hashers built from it give equal digests to equal input. The model of
/// `HashMap` can say this of a type of hash builders only, so that is what
/// stands here.
pub open spec fn hashes_alike<K, V>(map: &HashMap<K, V, ahash::RandomState>) -> bool {
    builds_valid_hashers::<ahash::RandomState>()
}

/// An empty map, made by `HashMap::default()` with `ahash::RandomState` as its
/// hash builder, which is then `ahash::RandomState::default()`.
///
/// Nothing of this is proved. It is taken from std that the map holds no
/// entry, and from ahash that the hashers built from one `RandomState` give
/// the same digest for the same input, as the documentation of its
/// `build_hasher` says.
#[verifier::external_body]
fn empty_map<K, V>() -> (table: HashMap<K, V, ahash::RandomState>)
    ensures
        table@.dom() == Set::<K>::empty(),
        hashes_alike(&table),
{
    HashMap::default()
}

/// Calls `on_enter` on the state that `states` holds under `key`.
fn enter_state<Context, Key, S>(
    states: &mut HashMap<Key, S, ahash::RandomState>,
    key: Key,
    context: &mut Context,
    time_nanos: MonotonicTimestamp,
) where Key: StateKey, S: State<Context, Key>
    requires
        obeys_key_model::<Key>(),
        builds_valid_hashers::<ahash::RandomState>(),
        old(states)@.contains_key(key),
    ensures
        entered_at(old(states)@, *old(context), key, time_nanos, final(states)@, *final(context)),
{
    match states.entry(key) {
        Entry::Occupied(mut occupied) => {
            occupied.get_mut().on_enter(context, time_nanos);
        },
        Entry::Vacant(_) => {},
    }
}

/// Calls `on_exit` on the state that `states` holds under `key`.
fn leave_state<Context, Key, S>(
    states: &mut HashMap<Key, S, ahash::RandomState>,
    key: Key,
    context: &mut Context,
    time_nanos: MonotonicTimestamp,
    time_in_state: Duration,
) where Key: StateKey, S: State<Context, Key>
    requires
        obeys_key_model::<Key>(),
        builds_valid_hashers::<ahash::RandomState>(),
        old(states)@.contains_key(key),
    ensures
        exited_at(
            old(states)@,
            *old(context),
            key,
            time_nanos,
            time_in_state,
            final(states)@,
            *final(context),
        ),
{
    match states.entry(key) {
        Entry::Occupied(mut occupied) => {
            occupied.get_mut().on_exit(context, time_nanos, time_in_state);
        },
        Entry::Vacant(_) => {},
    }
}

/// Calls `do_state_action` on the state that `states` holds under `key`.
fn act_in_state<Context, Key, S>(
    states: &mut HashMap<Key, S, ahash::RandomState>,
    key: Key,
    context: &mut Context,
    time_nanos: MonotonicTimestamp,
    time_in_state: Duration,
) where Key: StateKey, S: State<Context, Key>
    requires
        obeys_key_model::<Key>(),
        builds_valid_hashers::<ahash::RandomState>(),
        old(states)@.contains_key(key),
    ensures
        acted_at(
            old(states)@,
            *old(context),
            key,
            time_nanos,
            time_in_state,
            final(states)@,
            *final(context),
        ),
{
    match states.entry(key) {
        Entry::Occupied(mut occupied) => {
            occupied.get_mut().do_state_action(context, time_nanos, time_in_state);
        },
        Entry::Vacant(_) => {},
    }
}

/// A state machine that grows as states are added. It owns its states.
#[verifier::reject_recursive_types(Context)]
#[verifier::reject_recursive_types(Key)]
#[verifier::reject_recursive_types(S)]
#[verifier::reject_recursive_types(T)]
pub struct StateMachine<Context, Key, S, T> where
    Key: StateKey,
    S: State<Context, Key>,
    T: TransitionCondition<Context, Key> + Copy,
 {
    initial_state: Key,
    current_state: Key,
    transitions: HashMap<Key, Vec<T>, ahash::RandomState>,
    states: HashMap<Key, S, ahash::RandomState>,
    current_state_start_time: MonotonicTimestamp,
    first_tick: bool,
    user_requested_state: Option<Key>,
    context: PhantomData<Context>,
}

impl<Context, Key, S, T> View for StateMachine<Context, Key, S, T> where
    Key: StateKey,
    S: State<Context, Key>,
    T: TransitionCondition<Context, Key> + Copy,
 {
    type V = MachineView<Key, S, T>;

    closed spec fn view(&self) -> MachineView<Key, S, T> {
        MachineView {
            initial_state: self.initial_state,
            current_state: self.current_state,
            current_state_start_time: self.current_state_start_time,
            first_tick: self.first_tick,
            user_requested_state: self.user_requested_state,
            states: self.states@,
            transitions: self.transitions@.map_values(|list: Vec<T>| list@),
        }
    }
}

impl<Context, Key, S, T> StateMachine<Context, Key, S, T> where
    Key: StateKey,
    S: State<Context, Key>,
    T: TransitionCondition<Context, Key> + Copy,
 {
    /// The maps of the machine follow the model of a hash map.
    pub closed spec fn hashing_holds(&self) -> bool {
        &&& obeys_key_model::<Key>()
        &&& builds_valid_hashers::<ahash::RandomState>()
    }

    /// What every machine that this module hands out satisfies.
    pub open spec fn wf(&self) -> bool {
        &&& self.hashing_holds()
        &&& self@.well_formed()
    }

    /// A machine that holds `initial_state` alone and waits for its first tick.
    pub fn new_state_machine(initial_state: S) -> (machine: Self)
        requires
            obeys_key_model::<Key>(),
        ensures
            machine.wf(),
            machine@ == MachineView::<Key, S, T>::fresh(initial_state.key(), initial_state),
    {
        let mut states: HashMap<Key, S, ahash::RandomState> = empty_map();
        let transitions: HashMap<Key, Vec<T>, ahash::RandomState> = empty_map();
        assert(states@ =~= Map::empty());
        assert(transitions@ =~= Map::empty());
        let state_key = initial_state.state_key();
        let ghost first = initial_state;
        states.insert(state_key, initial_state);
        let machine = StateMachine {
            initial_state: state_key,
            current_state: state_key,
            transitions,
            states,
            current_state_start_time: 0,
            first_tick: true,
            user_requested_state: None,
            context: PhantomData,
        };
        assert(machine@.transitions =~= Map::empty());
        assert(machine@.states == Map::<Key, S>::empty().insert(state_key, first));
        machine
    }

    /// Registers `state_to_add` under its own key, unless that key is taken.
    pub fn add_state(&mut self, state_to_add: S) -> (result: StateMachineSetupResult<(), Key>)
        requires
            old(self).wf(),
        ensures
            final(self).wf(),
            result == add_state_outcome(old(self)@, state_to_add.key(), None),
            final(self)@ == if result is Ok {
                old(self)@.with_state(state_to_add.key(), state_to_add)
            } else {
                old(self)@
            },
    {
        let key = state_to_add.state_key();
        match self.states.entry(key) {
            Entry::Occupied(_) => {
                assert(self.states@ =~= old(self).states@);
                Err(StateMachineError::StateAlreadyRegistered(key))
            },
            Entry::Vacant(entry) => {
                entry.insert(state_to_add);
                Ok(())
            },
        }
    }

    /// Adds `transition` behind the conditions of `from`, which must be a
    /// registered state.
    pub fn add_transition_condition(&mut self, from: Key, transition: T) -> (result:
        StateMachineSetupResult<(), Key>)
        requires
            old(self).wf(),
        ensures
            final(self).wf(),
            result == add_condition_outcome(old(self)@, from, None),
            final(self)@ == if result is Ok {
                old(self)@.with_condition(from, transition)
            } else {
                old(self)@
            },
    {
        if self.states.contains_key(&from) {
            let list = self.transitions.entry(from).or_insert(Vec::with_capacity(4));
            list.push(transition);
            assert(self@.transitions =~= old(self)@.with_condition(from, transition).transitions);
            Ok(())
        } else {
            Err(StateMachineError::TransitionStartStateNotRegistered(from))
        }
    }

    /// Adds `transition` for each key of `from` in turn and stops at the first
    /// key that is not registered; what was added before it stays.
    pub fn add_transition_condition_bulk(&mut self, from: &[Key], transition: T) -> (result:
        StateMachineSetupResult<(), Key>)
        requires
            old(self).wf(),
        ensures
            final(self).wf(),
            (final(self)@, result) == add_conditions(old(self)@, from@, transition, None),
    {
        let mut i: usize = 0;
        assert(from@.skip(0) =~= from@);
        while i < from.len()
            invariant
                i <= from.len(),
                self.wf(),
                add_conditions(old(self)@, from@, transition, None) == add_conditions(
                    self@,
                    from@.skip(i as int),
                    transition,
                    None,
                ),
            decreases from.len() - i,
        {
            let ghost rest = from@.skip(i as int);
            assert(rest[0] == from@[i as int]);
            assert(rest.drop_first() =~= from@.skip(i + 1));
            match self.add_transition_condition(from[i], transition) {
                Ok(_) => {},
                Err(error) => {
                    return Err(error);
                },
            }
            i += 1;
        }
        assert(from@.skip(i as int).len() == 0);
        Ok(())
    }

    /// Leaves the current state and makes the initial state the current one.
    /// That state's `on_enter` waits for the next tick.
    pub fn reset(&mut self, context: &mut Context, time_nanos: MonotonicTimestamp)
        requires
            old(self).wf(),
            old(self)@.current_state_start_time <= time_nanos,
        ensures
            final(self).wf(),
            reset_to_initial(
                old(self)@,
                *old(context),
                time_nanos,
                final(self)@,
                *final(context),
            ),
    {
        let spent = time_in_state(self.current_state_start_time, time_nanos);
        leave_state(&mut self.states, self.current_state, context, time_nanos, spent);
        self.current_state_start_time = time_nanos;
        self.current_state = self.initial_state;
        self.first_tick = true;
    }

    /// One tick: enters the current state if it was not entered yet, asks
    /// its conditions in order, follows the first that names a destination,
    /// and lets the state that is then current act.
    pub fn check_transition_and_do_action(
        &mut self,
        context: &mut Context,
        time_nanos: MonotonicTimestamp,
    )
        requires
            old(self).wf(),
            old(self)@.current_state_start_time <= time_nanos,
            destinations_registered(old(self)@),
        ensures
            final(self).wf(),
            ticked(old(self)@, *old(context), time_nanos, final(self)@, *final(context), false),
    {
        let ghost pre = self@;
        let ghost start_context = *context;
        let current = self.current_state;
        let spent = time_in_state(self.current_state_start_time, time_nanos);
        if self.first_tick {
            enter_state(&mut self.states, current, context, time_nanos);
            self.first_tick = false;
        }
        let ghost entered_states = self.states@;
        let ghost entered_context = *context;
        let requested = self.user_requested_state.take();
        let (destination, evaluations) = match self.transitions.get(&current) {
            Some(conditions) => first_destination(conditions, context, &requested, spent.as_nanos()),
            None => (None, Ghost(Seq::empty())),
        };
        let ghost evaluated_context = *context;
        let ghost mut run = TickRun {
            entered_states,
            entered_context,
            evaluations: evaluations@,
            exited_states: entered_states,
            exited_context: evaluated_context,
            arrived_states: entered_states,
            arrived_context: evaluated_context,
        };
        match destination {
            None => {
                act_in_state(&mut self.states, current, context, time_nanos, spent);
            },
            Some(new_state) => {
                leave_state(&mut self.states, current, context, time_nanos, spent);
                self.current_state_start_time = time_nanos;
                self.current_state = new_state;
                proof {
                    run.exited_states = self.states@;
                    run.exited_context = *context;
                    let asked = evaluations@.len() - 1;
                    assert(pre.conditions_of(current)[asked].decides(
                        context_before(evaluations@, entered_context, asked),
                        pre.user_requested_state,
                        duration_as_nanos(spent),
                        evaluations@[asked].0,
                        Some(new_state),
                    ));
                }
                enter_state(&mut self.states, new_state, context, time_nanos);
                proof {
                    run.arrived_states = self.states@;
                    run.arrived_context = *context;
                }
                act_in_state(
                    &mut self.states,
                    new_state,
                    context,
                    time_nanos,
                    Duration::from_nanos(0),
                );
            },
        }
        assert(tick_through(pre, start_context, time_nanos, run, self@, *context, false));
    }

    /// Stores `requested_state` as the user's request, over any earlier one.
    pub fn request_transition_from_user(&mut self, requested_state: Key)
        ensures
            final(self)@ == old(self)@.with_request(requested_state),
            old(self).wf() ==> final(self).wf(),
    {
        self.user_requested_state = Some(requested_state);
    }

    /// The key of the current state.
    pub fn current_state(&self) -> (key: Key)
        ensures
            key == self@.current_state,
    {
        self.current_state
    }
}

} // verus!
