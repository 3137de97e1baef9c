use rustbolt::dispatch::{start, step, Action, Event, Failure, Phase, Recovery};
use rustbolt::packets::CmdAuthLogonChallenge;

const EVENTS: [Event; 11] = [
    Event::DirectoryLoaded,
    Event::DirectoryFailed,
    Event::Bound,
    Event::BindFailed,
    Event::Accepted,
    Event::AcceptFailed,
    Event::HandlerFinished,
    Event::HandlerFailed(Failure::MalformedPacket),
    Event::HandlerFailed(Failure::ConnectionIo),
    Event::HandlerFailed(Failure::DirectoryLoad),
    Event::HandlerFailed(Failure::Bind),
];

#[test]
fn startup_loads_then_binds_then_accepts() {
    let phase = start();
    assert_eq!(phase, Phase::Loading);
    let (phase, action) = step(phase, Event::DirectoryLoaded);
    assert_eq!((phase, action), (Phase::Binding, Action::Bind));
    let (phase, action) = step(phase, Event::Bound);
    assert_eq!((phase, action), (Phase::Serving, Action::Accept));
    let (phase, action) = step(phase, Event::Accepted);
    assert_eq!((phase, action), (Phase::Serving, Action::Spawn));
}

#[test]
fn a_directory_that_does_not_load_ends_the_process() {
    assert_eq!(
        step(start(), Event::DirectoryFailed),
        (Phase::Aborted, Action::Abort(Failure::DirectoryLoad))
    );
}

#[test]
fn an_address_that_cannot_be_bound_ends_the_process() {
    let (phase, _) = step(start(), Event::DirectoryLoaded);
    assert_eq!(
        step(phase, Event::BindFailed),
        (Phase::Aborted, Action::Abort(Failure::Bind))
    );
}

#[test]
fn a_failed_accept_is_followed_by_the_next_accept() {
    assert_eq!(
        step(Phase::Serving, Event::AcceptFailed),
        (Phase::Serving, Action::Accept)
    );
}

#[test]
fn a_failing_connection_does_not_touch_its_sibling() {
    // Two clients connect; the first sends a truncated challenge, the second
    // a whole one.
    let (phase, first) = step(Phase::Serving, Event::Accepted);
    let (phase, second) = step(phase, Event::Accepted);
    assert_eq!((first, second), (Action::Spawn, Action::Spawn));

    let truncated: Vec<u8> = vec![0x00, 0x03, 0x20];
    let mut whole: Vec<u8> = vec![0; 34];
    whole[33] = 1;
    whole.push(b'B');
    let outcome_a = CmdAuthLogonChallenge::new(&truncated);
    let outcome_b = CmdAuthLogonChallenge::new(&whole);
    assert!(outcome_a.is_err());
    assert_eq!(outcome_b.unwrap().account_name(), "B");

    let (phase, action) = step(phase, Event::HandlerFailed(Failure::MalformedPacket));
    assert_eq!((phase, action), (Phase::Serving, Action::Close));
    let (phase, action) = step(phase, Event::HandlerFinished);
    assert_eq!((phase, action), (Phase::Serving, Action::Close));
    assert_eq!(step(phase, Event::Accepted), (Phase::Serving, Action::Spawn));
}

#[test]
fn no_event_ends_the_service() {
    for event in EVENTS {
        let (phase, action) = step(Phase::Serving, event);
        assert_eq!(phase, Phase::Serving);
        assert!(!matches!(action, Action::Abort(_)));
        assert_ne!(action, Action::Bind);
    }
}

#[test]
fn after_a_failed_startup_nothing_is_done() {
    for event in EVENTS {
        assert_eq!(step(Phase::Aborted, event), (Phase::Aborted, Action::Ignore));
    }
}

#[test]
fn events_out_of_their_phase_are_ignored() {
    for event in EVENTS {
        if event != Event::DirectoryLoaded && event != Event::DirectoryFailed {
            assert_eq!(step(Phase::Loading, event), (Phase::Loading, Action::Ignore));
        }
        if event != Event::Bound && event != Event::BindFailed {
            assert_eq!(step(Phase::Binding, event), (Phase::Binding, Action::Ignore));
        }
    }
    assert_eq!(step(Phase::Serving, Event::Bound), (Phase::Serving, Action::Ignore));
    assert_eq!(
        step(Phase::Serving, Event::DirectoryLoaded),
        (Phase::Serving, Action::Ignore)
    );
}

#[test]
fn the_address_is_bound_once_whatever_is_reported() {
    let mut phase = start();
    let mut binds = 0;
    for round in 0..3 {
        for event in EVENTS {
            let (next, action) = step(phase, event);
            if action == Action::Bind {
                binds += 1;
            }
            phase = next;
        }
        assert_eq!(binds, 1, "round {}", round);
    }
    assert_eq!(phase, Phase::Serving);
}

#[test]
fn only_failures_of_startup_end_the_process() {
    assert_eq!(Failure::DirectoryLoad.recovery(), Recovery::AbortProcess);
    assert_eq!(Failure::Bind.recovery(), Recovery::AbortProcess);
    assert_eq!(Failure::MalformedPacket.recovery(), Recovery::CloseConnection);
    assert_eq!(Failure::ConnectionIo.recovery(), Recovery::CloseConnection);
}
