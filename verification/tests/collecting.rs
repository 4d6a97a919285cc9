use football_quiz::collector::{
    collect_from_events, collector_start, collector_step, gate_step, CollectResult, CollectStep,
    CollectorState, GateStep, PollEvent,
};
use football_quiz::text::to_upper;

#[test]
fn no_key_within_deadline_times_out() {
    let events = vec![PollEvent::NoKey; 10];
    let (result, polls) = collect_from_events(&events, 1000);
    assert_eq!(result, CollectResult::TimedOut);
    assert_eq!(polls, 10);
}

#[test]
fn events_running_out_times_out() {
    let events = vec![PollEvent::NoKey, PollEvent::NoKey];
    let (result, polls) = collect_from_events(&events, 1000);
    assert_eq!(result, CollectResult::TimedOut);
    assert_eq!(polls, 2);
}

#[test]
fn first_key_answers_and_stops_the_wait() {
    let events = vec![
        PollEvent::NoKey,
        PollEvent::Key('b'),
        PollEvent::Key('c'),
        PollEvent::NoKey,
    ];
    let (result, polls) = collect_from_events(&events, 1000);
    assert_eq!(result, CollectResult::Answered('B'));
    assert_eq!(polls, 2);
}

#[test]
fn key_after_the_deadline_does_not_count() {
    let events = vec![PollEvent::NoKey, PollEvent::NoKey, PollEvent::Key('a')];
    let (result, polls) = collect_from_events(&events, 200);
    assert_eq!(result, CollectResult::TimedOut);
    assert_eq!(polls, 2);
}

#[test]
fn answers_are_uppercased() {
    let events = vec![PollEvent::Key('x')];
    let (result, _) = collect_from_events(&events, 1000);
    assert_eq!(result, CollectResult::Answered('X'));
    assert_eq!(to_upper('d'), 'D');
    assert_eq!(to_upper('D'), 'D');
    assert_eq!(to_upper('3'), '3');
}

#[test]
fn step_by_step_wait_reaches_the_deadline() {
    let mut st = collector_start(250);
    let mut steps = 0;
    loop {
        match collector_step(st, PollEvent::NoKey) {
            CollectStep::Pending(next) => {
                st = next;
                steps += 1;
            },
            CollectStep::Done(res) => {
                assert_eq!(res, CollectResult::TimedOut);
                break;
            },
        }
        assert!(steps <= 3);
    }
    assert_eq!(steps, 3);
}

#[test]
fn a_key_ends_the_step_wait_at_once() {
    let st = CollectorState { elapsed_ms: 100, deadline_ms: 10_000 };
    assert_eq!(
        collector_step(st, PollEvent::Key('a')),
        CollectStep::Done(CollectResult::Answered('A'))
    );
}

#[test]
fn gate_accepts_only_r() {
    assert_eq!(gate_step(PollEvent::Key('r')), GateStep::Proceed);
    assert_eq!(gate_step(PollEvent::Key('R')), GateStep::Proceed);
    assert_eq!(gate_step(PollEvent::Key('x')), GateStep::Remind);
    assert_eq!(gate_step(PollEvent::Key(' ')), GateStep::Remind);
    assert_eq!(gate_step(PollEvent::NoKey), GateStep::KeepWaiting);
}
