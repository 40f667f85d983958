use vstd::prelude::*;

verus! {

/// Where a connection stands.
#[derive(Clone, Copy, Debug, PartialEq, Eq, Structural)]
pub enum Phase {
    Upgrading,
    Active,
    Closing,
    Closed,
}

/// What the transport, the queue or the upgrade check reported.
#[derive(Clone, Copy, Debug, PartialEq, Eq, Structural)]
pub enum Event {
    /// The session and the membership were accepted.
    Granted,
    /// The session or the membership was rejected.
    Refused,
    /// A text frame arrived from the peer.
    TextFrame,
    /// A frame that carries no message (ping, pong, binary).
    OtherFrame,
    /// The peer sent a close frame.
    CloseFrame,
    /// Reading from the transport failed or the stream ended.
    TransportError,
    /// Writing to the transport failed.
    WriteFailed,
    /// The outbound queue was closed.
    QueueClosed,
}

/// What the task that reported the event must do next.
#[derive(Clone, Copy, Debug, PartialEq, Eq, Structural)]
pub enum Action {
    /// Enter the connection in the registry.
    Register,
    /// Refuse the upgrade; nothing is registered.
    Refuse,
    /// Hand the frame's text to the room.
    Relay,
    /// Remove the connection from the registry.
    Deregister,
    /// Nothing.
    Ignore,
}

/// The event ends the connection.
pub open spec fn is_terminal(e: Event) -> bool {
    matches!(e, Event::CloseFrame | Event::TransportError | Event::WriteFailed | Event::QueueClosed)
}

/// The transition taken from `p` on `e`, and the action it asks for.
pub open spec fn next(p: Phase, e: Event) -> (Phase, Action) {
    match p {
        Phase::Upgrading => match e {
            Event::Granted => (Phase::Active, Action::Register),
            Event::Refused => (Phase::Closed, Action::Refuse),
            _ => if is_terminal(e) {
                (Phase::Closed, Action::Ignore)
            } else {
                (Phase::Upgrading, Action::Ignore)
            },
        },
        Phase::Active => match e {
            Event::TextFrame => (Phase::Active, Action::Relay),
            _ => if is_terminal(e) {
                (Phase::Closing, Action::Deregister)
            } else {
                (Phase::Active, Action::Ignore)
            },
        },
        Phase::Closing => if is_terminal(e) {
            (Phase::Closed, Action::Ignore)
        } else {
            (Phase::Closing, Action::Ignore)
        },
        Phase::Closed => (Phase::Closed, Action::Ignore),
    }
}

/// How many times the connection is removed from the registry while it
/// goes from `p` through `evs`.
pub open spec fn deregistrations(p: Phase, evs: Seq<Event>) -> nat
    decreases evs.len(),
{
    if evs.len() == 0 {
        0
    } else {
        let (q, a) = next(p, evs[0]);
        (if a == Action::Deregister { 1nat } else { 0nat }) + deregistrations(q, evs.drop_first())
    }
}

/// The decisions of one connection's two tasks, which share it.
pub struct Supervisor {
    phase: Phase,
}

impl Supervisor {
    pub closed spec fn view(&self) -> Phase {
        self.phase
    }

    pub fn new() -> (r: Self)
        ensures
            r@ == Phase::Upgrading,
    {
        Supervisor { phase: Phase::Upgrading }
    }

    pub fn phase(&self) -> (r: Phase)
        ensures
            r == self@,
    {
        self.phase
    }

    /// Takes the transition for `e` and says what to do. A text frame is
    /// relayed only while the connection is active; the first event that
    /// ends an active connection asks for its removal, and no later one does.
    pub fn step(&mut self, e: Event) -> (a: Action)
        ensures
            (final(self)@, a) == next(old(self)@, e),
    {
        let terminal = match e {
            Event::CloseFrame | Event::TransportError | Event::WriteFailed | Event::QueueClosed => true,
            _ => false,
        };
        let (p, a) = match self.phase {
            Phase::Upgrading => match e {
                Event::Granted => (Phase::Active, Action::Register),
                Event::Refused => (Phase::Closed, Action::Refuse),
                _ => if terminal {
                    (Phase::Closed, Action::Ignore)
                } else {
                    (Phase::Upgrading, Action::Ignore)
                },
            },
            Phase::Active => match e {
                Event::TextFrame => (Phase::Active, Action::Relay),
                _ => if terminal {
                    (Phase::Closing, Action::Deregister)
                } else {
                    (Phase::Active, Action::Ignore)
                },
            },
            Phase::Closing => if terminal {
                (Phase::Closed, Action::Ignore)
            } else {
                (Phase::Closing, Action::Ignore)
            },
            Phase::Closed => (Phase::Closed, Action::Ignore),
        };
        self.phase = p;
        a
    }
}

/// Whatever the two tasks report, and in whatever order, a connection is
/// removed from the registry at most once, and never after it has begun to
/// close.
pub proof fn deregistered_at_most_once(p: Phase, evs: Seq<Event>)
    ensures
        deregistrations(p, evs) <= 1,
        (p == Phase::Closing || p == Phase::Closed) ==> deregistrations(p, evs) == 0,
    decreases evs.len(),
{
    if evs.len() > 0 {
        let (q, a) = next(p, evs[0]);
        deregistered_at_most_once(q, evs.drop_first());
    }
}

/// An active connection that sees an ending event is removed from the
/// registry right then, whichever task saw it.
pub proof fn ending_active_connection_deregisters(e: Event)
    requires
        is_terminal(e),
    ensures
        next(Phase::Active, e) == (Phase::Closing, Action::Deregister),
        deregistrations(Phase::Active, seq![e]) == 1,
{
    let evs = seq![e];
    assert(evs.drop_first() =~= Seq::<Event>::empty());
    assert(deregistrations(Phase::Closing, evs.drop_first()) == 0);
    assert(evs[0] == e);
}

} // verus!
