//! The connection dispatcher's decisions.
//!
//! The dispatcher loads the realm directory, binds one listening address,
//! and then accepts connections without end, handing each to a handler of
//! its own. Sockets and tasks are the caller's business: the caller performs
//! the [`Action`] it is given and reports what happened as the next
//! [`Event`]. What is decided here is which failures end the process and
//! which end only one connection.

use vstd::prelude::*;

verus! {

/// The kinds of failure.
#[derive(Debug, Clone, Copy, PartialEq, Eq, Structural)]
pub enum Failure {
    /// A client sent bytes that are not the message expected of it.
    MalformedPacket,
    /// The realm directory could not be loaded.
    DirectoryLoad,
    /// The listening address could not be bound.
    Bind,
    /// Reading from or writing to a connection failed.
    ConnectionIo,
}

/// How far a failure reaches.
#[derive(Debug, Clone, Copy, PartialEq, Eq, Structural)]
pub enum Recovery {
    /// The connection on which it happened is closed; nothing else changes.
    CloseConnection,
    /// The process ends without serving.
    AbortProcess,
}

impl Failure {
    /// A failure of startup ends the process; every other failure ends one
    /// connection.
    pub open spec fn spec_recovery(self) -> Recovery {
        match self {
            Failure::DirectoryLoad | Failure::Bind => Recovery::AbortProcess,
            Failure::MalformedPacket | Failure::ConnectionIo => Recovery::CloseConnection,
        }
    }

    /// How far this failure reaches.
    #[verifier::when_used_as_spec(spec_recovery)]
    pub fn recovery(self) -> (reach: Recovery)
        ensures
            reach == self.spec_recovery(),
    {
        match self {
            Failure::DirectoryLoad => Recovery::AbortProcess,
            Failure::Bind => Recovery::AbortProcess,
            Failure::MalformedPacket => Recovery::CloseConnection,
            Failure::ConnectionIo => Recovery::CloseConnection,
        }
    }
}

/// Where the dispatcher stands.
#[derive(Debug, Clone, Copy, PartialEq, Eq, Structural)]
pub enum Phase {
    /// The realm directory is being loaded.
    Loading,
    /// The directory is loaded and the listening address is being bound.
    Binding,
    /// The address is bound and connections are accepted.
    Serving,
    /// Startup failed.
    Aborted,
}

/// What the caller reports.
#[derive(Debug, Clone, Copy, PartialEq, Eq, Structural)]
pub enum Event {
    /// The realm directory was loaded.
    DirectoryLoaded,
    /// The realm directory was refused or could not be read.
    DirectoryFailed,
    /// The listening address was bound.
    Bound,
    /// The listening address could not be bound.
    BindFailed,
    /// A client connected.
    Accepted,
    /// Waiting for a client failed.
    AcceptFailed,
    /// A handler ran to its end.
    HandlerFinished,
    /// A handler gave up with a failure.
    HandlerFailed(Failure),
}

/// What the caller is to do next.
#[derive(Debug, Clone, Copy, PartialEq, Eq, Structural)]
pub enum Action {
    /// Bind the listening address.
    Bind,
    /// Wait for the next client.
    Accept,
    /// Hand the new connection and a share of the directory to a handler of
    /// its own, then wait for the next client.
    Spawn,
    /// Close the connection of the handler that ended.
    Close,
    /// End the process on account of a failure.
    Abort(Failure),
    /// Nothing: the event has no place in this phase.
    Ignore,
}

/// The dispatcher's rule: the phase after `event` and what to do about it.
pub open spec fn transition(phase: Phase, event: Event) -> (Phase, Action) {
    match (phase, event) {
        (Phase::Loading, Event::DirectoryLoaded) => (Phase::Binding, Action::Bind),
        (Phase::Loading, Event::DirectoryFailed) => (
            Phase::Aborted,
            Action::Abort(Failure::DirectoryLoad),
        ),
        (Phase::Binding, Event::Bound) => (Phase::Serving, Action::Accept),
        (Phase::Binding, Event::BindFailed) => (Phase::Aborted, Action::Abort(Failure::Bind)),
        (Phase::Serving, Event::Accepted) => (Phase::Serving, Action::Spawn),
        (Phase::Serving, Event::AcceptFailed) => (Phase::Serving, Action::Accept),
        (Phase::Serving, Event::HandlerFinished) => (Phase::Serving, Action::Close),
        (Phase::Serving, Event::HandlerFailed(_)) => (Phase::Serving, Action::Close),
        _ => (phase, Action::Ignore),
    }
}

/// The phase in which a dispatcher starts.
pub fn start() -> (phase: Phase)
    ensures
        phase == Phase::Loading,
{
    Phase::Loading
}

/// Takes one event: the phase after it and what the caller is to do.
pub fn step(phase: Phase, event: Event) -> (next: (Phase, Action))
    ensures
        next == transition(phase, event),
{
    match phase {
        Phase::Loading => match event {
            Event::DirectoryLoaded => (Phase::Binding, Action::Bind),
            Event::DirectoryFailed => (Phase::Aborted, Action::Abort(Failure::DirectoryLoad)),
            _ => (phase, Action::Ignore),
        },
        Phase::Binding => match event {
            Event::Bound => (Phase::Serving, Action::Accept),
            Event::BindFailed => (Phase::Aborted, Action::Abort(Failure::Bind)),
            _ => (phase, Action::Ignore),
        },
        Phase::Serving => match event {
            Event::Accepted => (Phase::Serving, Action::Spawn),
            Event::AcceptFailed => (Phase::Serving, Action::Accept),
            Event::HandlerFinished => (Phase::Serving, Action::Close),
            Event::HandlerFailed(_) => (Phase::Serving, Action::Close),
            _ => (phase, Action::Ignore),
        },
        Phase::Aborted => (phase, Action::Ignore),
    }
}

/// The phase that a dispatcher reaches from `phase` over `events`.
pub open spec fn phase_after(phase: Phase, events: Seq<Event>) -> Phase
    decreases events.len(),
{
    if events.len() == 0 {
        phase
    } else {
        transition(phase_after(phase, events.drop_last()), events.last()).0
    }
}

/// The actions that a dispatcher gives from `phase` over `events`, one for
/// each event.
pub open spec fn actions_over(phase: Phase, events: Seq<Event>) -> Seq<Action>
    decreases events.len(),
{
    if events.len() == 0 {
        Seq::empty()
    } else {
        actions_over(phase, events.drop_last()).push(
            transition(phase_after(phase, events.drop_last()), events.last()).1,
        )
    }
}

/// How often `action` occurs in `actions`.
pub open spec fn count_of(actions: Seq<Action>, action: Action) -> nat
    decreases actions.len(),
{
    if actions.len() == 0 {
        0
    } else {
        count_of(actions.drop_last(), action) + if actions.last() == action {
            1nat
        } else {
            0nat
        }
    }
}

/// No handler can stop the service or reach another connection: however a
/// handler ends, the dispatcher goes on serving and only that handler's
/// connection is closed.
pub proof fn lemma_handlers_are_isolated(event: Event)
    requires
        event == Event::HandlerFinished || event is HandlerFailed,
    ensures
        transition(Phase::Serving, event) == (Phase::Serving, Action::Close),
{
}

/// Once serving, the dispatcher serves for ever: no event leads out.
pub proof fn lemma_serving_never_ends(events: Seq<Event>)
    ensures
        phase_after(Phase::Serving, events) == Phase::Serving,
    decreases events.len(),
{
    if events.len() > 0 {
        lemma_serving_never_ends(events.drop_last());
    }
}

/// Once startup has failed nothing more is done.
pub proof fn lemma_aborted_is_final(events: Seq<Event>)
    ensures
        phase_after(Phase::Aborted, events) == Phase::Aborted,
        forall|i: int|
            0 <= i < events.len() ==> #[trigger] actions_over(Phase::Aborted, events)[i]
                == Action::Ignore,
        actions_over(Phase::Aborted, events).len() == events.len(),
    decreases events.len(),
{
    if events.len() > 0 {
        lemma_aborted_is_final(events.drop_last());
    }
}

/// The process is ended only by a failure of startup, and every failure of
/// startup that is reported in its phase ends it.
pub proof fn lemma_abort_only_at_startup(phase: Phase, event: Event)
    ensures
        transition(phase, event).1 matches Action::Abort(failure) ==> {
            &&& failure.recovery() == Recovery::AbortProcess
            &&& phase == Phase::Loading || phase == Phase::Binding
            &&& transition(phase, event).0 == Phase::Aborted
        },
        transition(phase, event).0 == Phase::Aborted && phase != Phase::Aborted
            ==> transition(phase, event).1 is Abort,
        transition(Phase::Loading, Event::DirectoryFailed).1 == Action::Abort(
            Failure::DirectoryLoad,
        ),
        transition(Phase::Binding, Event::BindFailed).1 == Action::Abort(Failure::Bind),
{
}

/// How far a phase is from the start.
pub open spec fn rank(phase: Phase) -> int {
    match phase {
        Phase::Loading => 0,
        Phase::Binding => 1,
        Phase::Serving => 2,
        Phase::Aborted => 2,
    }
}

/// The listening address is bound at most once: over any events, from any
/// phase, the dispatcher asks for it once at most, and never after the
/// loading phase is left.
pub proof fn lemma_binds_at_most_once(phase: Phase, events: Seq<Event>)
    ensures
        count_of(actions_over(phase, events), Action::Bind) <= 1,
        phase != Phase::Loading ==> count_of(actions_over(phase, events), Action::Bind) == 0,
        phase_after(phase, events) == Phase::Loading ==> count_of(
            actions_over(phase, events),
            Action::Bind,
        ) == 0,
        rank(phase) <= rank(phase_after(phase, events)),
    decreases events.len(),
{
    if events.len() > 0 {
        let front = events.drop_last();
        lemma_binds_at_most_once(phase, front);
        let actions = actions_over(phase, events);
        assert(actions.drop_last() =~= actions_over(phase, front));
    }
}

} // verus!
