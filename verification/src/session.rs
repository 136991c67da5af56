//! The supervisor of one session: the receive loop and the transmit loop run
//! side by side, and the end of the receive loop ends the session.

use vstd::prelude::*;

verus! {

/// Where a session stands.
#[derive(Clone, Copy, Debug, PartialEq, Eq, Structural)]
pub enum Session {
    /// Both loops run.
    Duplex,
    /// The transmit loop has ended by itself; the receive loop runs on.
    ReceiveOnly,
    /// The receive loop has ended and the connection is closed.
    Closed,
}

/// What the supervisor is told: that one of the two loops has ended.
#[derive(Debug, PartialEq, Eq)]
pub enum Ended<E> {
    /// The receive loop ended, with this outcome.
    Receive(Result<(), E>),
    /// The transmit loop ended. Its outcome is of no account.
    Transmit,
}

/// What the supervisor does on being told.
#[derive(Debug, PartialEq, Eq)]
pub enum Supervise<E> {
    /// Nothing: go on waiting.
    Wait,
    /// Abort the transmit loop at once, wherever it is suspended, give the
    /// notice of closure, and hand the receive loop's outcome to the caller.
    Close(Result<(), E>),
}

/// The state that follows `event`.
pub open spec fn state_after<E>(state: Session, event: Ended<E>) -> Session {
    match (state, event) {
        (Session::Closed, _) => Session::Closed,
        (_, Ended::Receive(_)) => Session::Closed,
        (_, Ended::Transmit) => Session::ReceiveOnly,
    }
}

/// What the supervisor does on `event`.
pub open spec fn action_on<E>(state: Session, event: Ended<E>) -> Supervise<E> {
    match (state, event) {
        (Session::Closed, _) => Supervise::Wait,
        (_, Ended::Receive(outcome)) => Supervise::Close(outcome),
        (_, Ended::Transmit) => Supervise::Wait,
    }
}

/// The state after a run of events.
pub open spec fn state_after_all<E>(state: Session, events: Seq<Ended<E>>) -> Session
    decreases events.len(),
{
    if events.len() == 0 {
        state
    } else {
        state_after(state_after_all(state, events.drop_last()), events.last())
    }
}

/// How often the supervisor closes the connection over a run of events.
pub open spec fn closures<E>(state: Session, events: Seq<Ended<E>>) -> nat
    decreases events.len(),
{
    if events.len() == 0 {
        0
    } else {
        let before = events.drop_last();
        closures(state, before) + if action_on(state_after_all(state, before), events.last())
            is Close {
            1nat
        } else {
            0nat
        }
    }
}

/// Whether the receive loop ends somewhere in a run of events.
pub open spec fn receive_ends<E>(events: Seq<Ended<E>>) -> bool {
    exists|i: int| 0 <= i < events.len() && #[trigger] events[i] is Receive
}

impl Session {
    /// A session whose two loops have just been started.
    pub fn start() -> (session: Session)
        ensures
            session == Session::Duplex,
    {
        Session::Duplex
    }

    /// Takes the end of one loop and says what to do about it. The end of
    /// the receive loop, with or without error, closes the session: the
    /// transmit loop is to be aborted unconditionally and the receive loop's
    /// outcome goes to the caller. The end of the transmit loop changes
    /// nothing for the receive loop. A closed session does nothing more.
    pub fn step<E>(self, event: Ended<E>) -> (next: (Session, Supervise<E>))
        ensures
            next.0 == state_after(self, event),
            next.1 == action_on(self, event),
    {
        match self {
            Session::Closed => (Session::Closed, Supervise::Wait),
            _ => match event {
                Ended::Receive(outcome) => (Session::Closed, Supervise::Close(outcome)),
                Ended::Transmit => (Session::ReceiveOnly, Supervise::Wait),
            },
        }
    }
}

/// Whenever the receive loop of an open session ends, from whatever cause
/// and wherever the transmit loop stands, the same step aborts the transmit
/// loop and closes the session, and the caller gets the receive loop's
/// outcome unchanged.
pub proof fn receive_end_closes<E>(state: Session, outcome: Result<(), E>)
    requires
        state != Session::Closed,
    ensures
        action_on(state, Ended::Receive(outcome)) == Supervise::Close(outcome),
        state_after(state, Ended::Receive(outcome)) == Session::Closed,
{
}

/// The end of the transmit loop never closes a session, whatever its state.
pub proof fn transmit_end_keeps_open<E>(state: Session)
    ensures
        action_on(state, Ended::<E>::Transmit) == Supervise::<E>::Wait,
        state != Session::Closed ==> state_after(state, Ended::<E>::Transmit)
            == Session::ReceiveOnly,
{
}

/// Over any run of events a session closes exactly once if the receive loop
/// ends in it, and not at all if it does not; it is closed afterwards
/// exactly where the receive loop has ended.
pub proof fn closes_exactly_once<E>(events: Seq<Ended<E>>)
    ensures
        closures(Session::Duplex, events) == if receive_ends(events) {
            1nat
        } else {
            0nat
        },
        state_after_all(Session::Duplex, events) == Session::Closed <==> receive_ends(events),
    decreases events.len(),
{
    if events.len() > 0 {
        let before = events.drop_last();
        closes_exactly_once(before);
        if receive_ends(before) {
            let i = choose|i: int| 0 <= i < before.len() && #[trigger] before[i] is Receive;
            assert(events[i] is Receive);
        }
        if events.last() is Receive {
            assert(events[events.len() - 1] is Receive);
        }
        if receive_ends(events) {
            let i = choose|i: int| 0 <= i < events.len() && #[trigger] events[i] is Receive;
            if i < before.len() {
                assert(before[i] is Receive);
            }
        }
    }
}

} // verus!
