use std::time::Duration;
use sync_fsm::sync::allocating::machine::StateMachine;
use sync_fsm::sync::state::State;
use sync_fsm::sync::transition::TransitionCondition;
use sync_fsm::StateMachineError;

#[derive(Debug, Clone, Copy, PartialEq, Eq, Hash)]
enum Key {
    Idle,
    Running,
    Done,
    Lost,
}

#[derive(Debug, Clone, PartialEq, Eq)]
enum Event {
    Enter(Key, u128),
    Exit(Key, u128, Duration),
    Action(Key, u128, Duration),
    Asked(u8, Option<Key>, u128),
    Marked(u32),
}

#[derive(Default)]
struct Log {
    events: Vec<Event>,
}

struct Recorder {
    key: Key,
    calls: u32,
    mark: u32,
}

fn recorder(key: Key) -> Recorder {
    Recorder { key, calls: 0, mark: 0 }
}

impl State<Log, Key> for Recorder {
    fn key(&self) -> Key {
        self.key
    }

    fn state_key(&self) -> Key {
        self.key
    }

    fn on_enter(&mut self, context: &mut Log, timestamp_nanos: u128) {
        self.calls += 1;
        if self.mark != 0 {
            context.events.push(Event::Marked(self.mark));
        }
        context.events.push(Event::Enter(self.key, timestamp_nanos));
    }

    fn on_exit(&mut self, context: &mut Log, timestamp_nanos: u128, time_in_state: Duration) {
        self.calls += 1;
        context.events.push(Event::Exit(self.key, timestamp_nanos, time_in_state));
    }

    fn do_state_action(&mut self, context: &mut Log, timestamp_nanos: u128, time_in_state: Duration) {
        self.calls += 1;
        context.events.push(Event::Action(self.key, timestamp_nanos, time_in_state));
    }
}

#[derive(Clone, Copy)]
struct Condition(fn(&mut Log, &Option<Key>, u128) -> Option<Key>);

impl TransitionCondition<Log, Key> for Condition {
    fn evaluate(&self, context: &mut Log, requested: &Option<Key>, time_in_state_nanos: u128) -> Option<Key> {
        (self.0)(context, requested, time_in_state_nanos)
    }
}

fn after_one_second(_context: &mut Log, _requested: &Option<Key>, nanos: u128) -> Option<Key> {
    if nanos >= 1_000_000_000 {
        Some(Key::Running)
    } else {
        None
    }
}

fn when_done_is_requested(_context: &mut Log, requested: &Option<Key>, _nanos: u128) -> Option<Key> {
    if *requested == Some(Key::Done) {
        Some(Key::Done)
    } else {
        None
    }
}

fn first_declines(context: &mut Log, requested: &Option<Key>, nanos: u128) -> Option<Key> {
    context.events.push(Event::Asked(1, *requested, nanos));
    None
}

fn second_to_running(context: &mut Log, requested: &Option<Key>, nanos: u128) -> Option<Key> {
    context.events.push(Event::Asked(2, *requested, nanos));
    Some(Key::Running)
}

fn third_to_done(context: &mut Log, requested: &Option<Key>, nanos: u128) -> Option<Key> {
    context.events.push(Event::Asked(3, *requested, nanos));
    Some(Key::Done)
}

fn to_self(_context: &mut Log, _requested: &Option<Key>, _nanos: u128) -> Option<Key> {
    Some(Key::Idle)
}

type Machine = StateMachine<Log, Key, Recorder, Condition>;

#[test]
fn growing_new_machine_is_in_initial_state_and_has_entered_nothing() {
    let mut machine: Machine = StateMachine::new_state_machine(recorder(Key::Idle));
    assert_eq!(machine.current_state(), Key::Idle);
    machine.add_state(recorder(Key::Running)).unwrap();
    machine.add_state(recorder(Key::Done)).unwrap();
    assert_eq!(machine.current_state(), Key::Idle);
    let mut log = Log::default();
    machine.check_transition_and_do_action(&mut log, 7);
    assert_eq!(log.events[0], Event::Enter(Key::Idle, 7));
}

#[test]
fn growing_first_tick_enters_once_before_asking() {
    let mut machine: Machine = StateMachine::new_state_machine(recorder(Key::Idle));
    machine.add_state(recorder(Key::Running)).unwrap();
    machine.add_transition_condition(Key::Idle, Condition(first_declines)).unwrap();
    let mut log = Log::default();
    machine.check_transition_and_do_action(&mut log, 5_000_000_000);
    assert_eq!(
        log.events,
        vec![
            Event::Enter(Key::Idle, 5_000_000_000),
            Event::Asked(1, None, 5_000_000_000),
            Event::Action(Key::Idle, 5_000_000_000, Duration::from_nanos(5_000_000_000)),
        ]
    );
    log.events.clear();
    machine.check_transition_and_do_action(&mut log, 6_000_000_000);
    assert_eq!(
        log.events,
        vec![
            Event::Asked(1, None, 6_000_000_000),
            Event::Action(Key::Idle, 6_000_000_000, Duration::from_nanos(6_000_000_000)),
        ]
    );
}

#[test]
fn growing_first_match_wins() {
    let mut machine: Machine = StateMachine::new_state_machine(recorder(Key::Idle));
    machine.add_state(recorder(Key::Running)).unwrap();
    machine.add_state(recorder(Key::Done)).unwrap();
    machine.add_transition_condition(Key::Idle, Condition(first_declines)).unwrap();
    machine.add_transition_condition(Key::Idle, Condition(second_to_running)).unwrap();
    machine.add_transition_condition(Key::Idle, Condition(third_to_done)).unwrap();
    let mut log = Log::default();
    machine.check_transition_and_do_action(&mut log, 10);
    assert_eq!(machine.current_state(), Key::Running);
    assert_eq!(
        log.events,
        vec![
            Event::Enter(Key::Idle, 10),
            Event::Asked(1, None, 10),
            Event::Asked(2, None, 10),
            Event::Exit(Key::Idle, 10, Duration::from_nanos(10)),
            Event::Enter(Key::Running, 10),
            Event::Action(Key::Running, 10, Duration::from_nanos(0)),
        ]
    );
}

#[test]
fn growing_reset_leaves_current_state_and_defers_enter() {
    let mut machine: Machine = StateMachine::new_state_machine(recorder(Key::Idle));
    machine.add_state(recorder(Key::Running)).unwrap();
    machine.add_transition_condition(Key::Idle, Condition(second_to_running)).unwrap();
    let mut log = Log::default();
    machine.check_transition_and_do_action(&mut log, 100);
    assert_eq!(machine.current_state(), Key::Running);
    log.events.clear();
    machine.reset(&mut log, 250);
    assert_eq!(machine.current_state(), Key::Idle);
    assert_eq!(log.events, vec![Event::Exit(Key::Running, 250, Duration::from_nanos(150))]);
    log.events.clear();
    machine.check_transition_and_do_action(&mut log, 300);
    assert_eq!(log.events[0], Event::Enter(Key::Idle, 300));
    assert_eq!(log.events[1], Event::Asked(2, None, 50));
}

#[test]
fn growing_reset_before_first_tick_still_leaves() {
    let mut machine: Machine = StateMachine::new_state_machine(recorder(Key::Idle));
    let mut log = Log::default();
    machine.reset(&mut log, 40);
    assert_eq!(log.events, vec![Event::Exit(Key::Idle, 40, Duration::from_nanos(40))]);
    assert_eq!(machine.current_state(), Key::Idle);
}

#[test]
fn growing_duplicate_state_is_refused_and_first_one_stays() {
    let mut machine: Machine = StateMachine::new_state_machine(recorder(Key::Idle));
    machine.add_state(recorder(Key::Running)).unwrap();
    let again = machine.add_state(Recorder { key: Key::Running, calls: 0, mark: 9 });
    assert_eq!(again, Err(StateMachineError::StateAlreadyRegistered(Key::Running)));
    let initial_again = machine.add_state(Recorder { key: Key::Idle, calls: 0, mark: 7 });
    assert_eq!(initial_again, Err(StateMachineError::StateAlreadyRegistered(Key::Idle)));
    assert_eq!(machine.current_state(), Key::Idle);
    machine.add_transition_condition(Key::Idle, Condition(second_to_running)).unwrap();
    let mut log = Log::default();
    machine.check_transition_and_do_action(&mut log, 6);
    assert_eq!(
        log.events,
        vec![
            Event::Enter(Key::Idle, 6),
            Event::Asked(2, None, 6),
            Event::Exit(Key::Idle, 6, Duration::from_nanos(6)),
            Event::Enter(Key::Running, 6),
            Event::Action(Key::Running, 6, Duration::from_nanos(0)),
        ]
    );
}

#[test]
fn growing_added_state_is_the_one_that_runs() {
    let mut machine: Machine = StateMachine::new_state_machine(recorder(Key::Idle));
    machine.add_state(Recorder { key: Key::Running, calls: 0, mark: 5 }).unwrap();
    machine.add_transition_condition(Key::Idle, Condition(second_to_running)).unwrap();
    let mut log = Log::default();
    machine.check_transition_and_do_action(&mut log, 6);
    assert_eq!(log.events[3], Event::Marked(5));
    assert_eq!(log.events[4], Event::Enter(Key::Running, 6));
}

#[test]
fn growing_condition_for_unknown_state_is_refused() {
    let mut machine: Machine = StateMachine::new_state_machine(recorder(Key::Idle));
    let refused = machine.add_transition_condition(Key::Lost, Condition(second_to_running));
    assert_eq!(refused, Err(StateMachineError::TransitionStartStateNotRegistered(Key::Lost)));
    machine.add_state(recorder(Key::Lost)).unwrap();
    machine.add_state(recorder(Key::Running)).unwrap();
    let mut log = Log::default();
    machine.check_transition_and_do_action(&mut log, 1);
    assert_eq!(machine.current_state(), Key::Idle);
    assert_eq!(
        log.events,
        vec![Event::Enter(Key::Idle, 1), Event::Action(Key::Idle, 1, Duration::from_nanos(1))]
    );
}

#[test]
fn growing_has_no_limit_on_conditions() {
    let mut machine: Machine = StateMachine::new_state_machine(recorder(Key::Idle));
    for _ in 0..100 {
        assert_eq!(machine.add_transition_condition(Key::Idle, Condition(first_declines)), Ok(()));
    }
    let mut log = Log::default();
    machine.check_transition_and_do_action(&mut log, 3);
    assert_eq!(log.events.len(), 102);
}

#[test]
fn growing_bulk_stops_at_first_unknown_key_and_keeps_what_it_added() {
    let mut machine: Machine = StateMachine::new_state_machine(recorder(Key::Running));
    machine.add_state(recorder(Key::Idle)).unwrap();
    machine.add_state(recorder(Key::Done)).unwrap();
    let result = machine.add_transition_condition_bulk(
        &[Key::Idle, Key::Lost, Key::Running],
        Condition(third_to_done),
    );
    assert_eq!(result, Err(StateMachineError::TransitionStartStateNotRegistered(Key::Lost)));
    let mut log = Log::default();
    machine.check_transition_and_do_action(&mut log, 1);
    assert_eq!(machine.current_state(), Key::Running);
    assert_eq!(
        log.events,
        vec![Event::Enter(Key::Running, 1), Event::Action(Key::Running, 1, Duration::from_nanos(1))]
    );
    machine.add_transition_condition(Key::Running, Condition(to_self)).unwrap();
    machine.check_transition_and_do_action(&mut log, 2);
    assert_eq!(machine.current_state(), Key::Idle);
    log.events.clear();
    machine.check_transition_and_do_action(&mut log, 3);
    assert_eq!(machine.current_state(), Key::Done);
    assert_eq!(log.events[0], Event::Asked(3, None, 1));
}

#[test]
fn growing_bulk_adds_for_every_key() {
    let mut machine: Machine = StateMachine::new_state_machine(recorder(Key::Idle));
    machine.add_state(recorder(Key::Running)).unwrap();
    machine.add_state(recorder(Key::Done)).unwrap();
    let result =
        machine.add_transition_condition_bulk(&[Key::Idle, Key::Running], Condition(third_to_done));
    assert_eq!(result, Ok(()));
    assert_eq!(machine.add_transition_condition_bulk(&[], Condition(third_to_done)), Ok(()));
    let mut log = Log::default();
    machine.check_transition_and_do_action(&mut log, 1);
    assert_eq!(machine.current_state(), Key::Done);
}

#[test]
fn growing_request_is_overwritten_and_used_up_by_one_tick() {
    let mut machine: Machine = StateMachine::new_state_machine(recorder(Key::Idle));
    machine.add_state(recorder(Key::Done)).unwrap();
    machine.add_transition_condition(Key::Idle, Condition(first_declines)).unwrap();
    machine.request_transition_from_user(Key::Running);
    machine.request_transition_from_user(Key::Done);
    let mut log = Log::default();
    machine.check_transition_and_do_action(&mut log, 9);
    assert_eq!(log.events[1], Event::Asked(1, Some(Key::Done), 9));
    log.events.clear();
    machine.check_transition_and_do_action(&mut log, 11);
    assert_eq!(log.events[0], Event::Asked(1, None, 11));
}

#[test]
fn growing_request_is_used_up_without_conditions() {
    let mut machine: Machine = StateMachine::new_state_machine(recorder(Key::Idle));
    machine.add_state(recorder(Key::Done)).unwrap();
    machine.request_transition_from_user(Key::Done);
    let mut log = Log::default();
    machine.check_transition_and_do_action(&mut log, 1);
    machine.add_transition_condition(Key::Idle, Condition(when_done_is_requested)).unwrap();
    machine.check_transition_and_do_action(&mut log, 2);
    assert_eq!(machine.current_state(), Key::Idle);
}

#[test]
fn growing_transition_to_same_state_leaves_and_enters_it() {
    let mut machine: Machine = StateMachine::new_state_machine(recorder(Key::Idle));
    machine.add_transition_condition(Key::Idle, Condition(to_self)).unwrap();
    let mut log = Log::default();
    machine.check_transition_and_do_action(&mut log, 20);
    assert_eq!(
        log.events,
        vec![
            Event::Enter(Key::Idle, 20),
            Event::Exit(Key::Idle, 20, Duration::from_nanos(20)),
            Event::Enter(Key::Idle, 20),
            Event::Action(Key::Idle, 20, Duration::from_nanos(0)),
        ]
    );
    log.events.clear();
    machine.check_transition_and_do_action(&mut log, 50);
    assert_eq!(log.events[0], Event::Exit(Key::Idle, 50, Duration::from_nanos(30)));
}

#[test]
fn growing_time_in_state_keeps_low_64_bits() {
    let mut machine: Machine = StateMachine::new_state_machine(recorder(Key::Idle));
    machine.add_transition_condition(Key::Idle, Condition(first_declines)).unwrap();
    let mut log = Log::default();
    let late: u128 = (1u128 << 64) + 5;
    machine.check_transition_and_do_action(&mut log, late);
    assert_eq!(
        log.events,
        vec![
            Event::Enter(Key::Idle, late),
            Event::Asked(1, None, 5),
            Event::Action(Key::Idle, late, Duration::from_nanos(5)),
        ]
    );
    log.events.clear();
    machine.check_transition_and_do_action(&mut log, late + u64::MAX as u128 - 5);
    assert_eq!(log.events[0], Event::Asked(1, None, u64::MAX as u128));
}

#[test]
fn growing_end_to_end_scenario() {
    let mut machine: Machine = StateMachine::new_state_machine(recorder(Key::Idle));
    machine.add_state(recorder(Key::Running)).unwrap();
    machine.add_state(recorder(Key::Done)).unwrap();
    machine.add_transition_condition(Key::Idle, Condition(after_one_second)).unwrap();
    machine.add_transition_condition(Key::Running, Condition(when_done_is_requested)).unwrap();
    let mut log = Log::default();

    machine.check_transition_and_do_action(&mut log, 0);
    assert_eq!(log.events[0], Event::Enter(Key::Idle, 0));
    assert_eq!(machine.current_state(), Key::Idle);

    log.events.clear();
    machine.check_transition_and_do_action(&mut log, 500_000_000);
    assert_eq!(
        log.events,
        vec![Event::Action(Key::Idle, 500_000_000, Duration::from_millis(500))]
    );
    assert_eq!(machine.current_state(), Key::Idle);

    log.events.clear();
    machine.check_transition_and_do_action(&mut log, 1_200_000_000);
    assert_eq!(
        log.events,
        vec![
            Event::Exit(Key::Idle, 1_200_000_000, Duration::from_millis(1200)),
            Event::Enter(Key::Running, 1_200_000_000),
            Event::Action(Key::Running, 1_200_000_000, Duration::from_nanos(0)),
        ]
    );
    assert_eq!(machine.current_state(), Key::Running);

    machine.request_transition_from_user(Key::Done);
    log.events.clear();
    machine.check_transition_and_do_action(&mut log, 1_300_000_000);
    assert_eq!(
        log.events,
        vec![
            Event::Exit(Key::Running, 1_300_000_000, Duration::from_millis(100)),
            Event::Enter(Key::Done, 1_300_000_000),
            Event::Action(Key::Done, 1_300_000_000, Duration::from_nanos(0)),
        ]
    );
    assert_eq!(machine.current_state(), Key::Done);
}
