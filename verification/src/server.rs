//! The server side: which transmit policy a connection gets, and the
//! acceptor that starts one session for every connection.

use vstd::prelude::*;
use std::path::PathBuf;
use crate::args::text_of;

verus! {

/// Where the preset message of a server comes from.
#[derive(Debug, PartialEq, Eq)]
pub enum MessageSource {
    /// There is none: the server relays its operator's input.
    Absent,
    /// It was given literally.
    Literal(String),
    /// It is the whole content of this file, verbatim.
    File(PathBuf),
}

/// How the transmit loop of a session gets what it sends.
#[derive(Clone, Debug, PartialEq, Eq)]
pub enum TransmitPolicy {
    /// Line by line from local input.
    Interactive,
    /// The preset message, whole and once.
    ScriptedWhole(String),
    /// The preset message, one character at a time, with this many
    /// milliseconds between characters.
    ScriptedPaced(String, u64),
}

/// `TransmitPolicy` with its message as a sequence of characters.
pub enum TransmitPolicyView {
    Interactive,
    ScriptedWhole(Seq<char>),
    ScriptedPaced(Seq<char>, u64),
}

impl View for TransmitPolicy {
    type V = TransmitPolicyView;

    open spec fn view(&self) -> TransmitPolicyView {
        match *self {
            TransmitPolicy::Interactive => TransmitPolicyView::Interactive,
            TransmitPolicy::ScriptedWhole(message) => TransmitPolicyView::ScriptedWhole(message@),
            TransmitPolicy::ScriptedPaced(message, wait_ms) => TransmitPolicyView::ScriptedPaced(
                message@,
                wait_ms,
            ),
        }
    }
}

/// The policy that a configuration selects: interactive without a message;
/// with one, paced where one character at a time is asked for, else whole.
pub open spec fn policy_for(
    message: Option<Seq<char>>,
    one_char: bool,
    wait_ms: u64,
) -> TransmitPolicyView {
    match message {
        None => TransmitPolicyView::Interactive,
        Some(text) => if one_char {
            TransmitPolicyView::ScriptedPaced(text, wait_ms)
        } else {
            TransmitPolicyView::ScriptedWhole(text)
        },
    }
}

/// Where the preset message comes from. Where both a literal message and a
/// file are configured, the file takes precedence.
pub fn message_source(message: Option<String>, file: Option<PathBuf>) -> (source: MessageSource)
    ensures
        source == (match (file, message) {
            (Some(path), _) => MessageSource::File(path),
            (None, Some(text)) => MessageSource::Literal(text),
            (None, None) => MessageSource::Absent,
        }),
{
    match file {
        Some(path) => MessageSource::File(path),
        None => match message {
            Some(text) => MessageSource::Literal(text),
            None => MessageSource::Absent,
        },
    }
}

/// The transmit policy of every session of a server, fixed before the first
/// connection is accepted.
pub fn transmit_policy(
    message: Option<String>,
    one_char: bool,
    wait_ms: u64,
) -> (policy: TransmitPolicy)
    ensures
        policy@ == policy_for(text_of(message), one_char, wait_ms),
{
    match message {
        None => TransmitPolicy::Interactive,
        Some(text) => if one_char {
            TransmitPolicy::ScriptedPaced(text, wait_ms)
        } else {
            TransmitPolicy::ScriptedWhole(text)
        },
    }
}

/// Where the acceptor stands.
#[derive(Clone, Copy, Debug, PartialEq, Eq, Structural)]
pub enum Acceptor {
    /// It waits for the next connection.
    Listening,
    /// Accepting has failed, and the server has ended.
    Stopped,
}

/// What the acceptor is told.
#[derive(Debug, PartialEq, Eq)]
pub enum Arrival<E> {
    /// A new connection has been accepted.
    Connection,
    /// Accepting has failed with this error.
    AcceptFailure(E),
    /// One of the sessions has closed, with this outcome.
    SessionClosed(Result<(), E>),
}

/// What the acceptor does on being told.
#[derive(Debug, PartialEq, Eq)]
pub enum Accept<E> {
    /// Start a session for the new connection and, without waiting for it,
    /// accept again.
    Spawn,
    /// Nothing: accept again.
    Carry,
    /// End the server with this error.
    Stop(E),
}

/// The state that follows `event`.
pub open spec fn acceptor_after<E>(state: Acceptor, event: Arrival<E>) -> Acceptor {
    match (state, event) {
        (Acceptor::Listening, Arrival::AcceptFailure(_)) => Acceptor::Stopped,
        (_, _) => state,
    }
}

/// What the acceptor does on `event`.
pub open spec fn accept_on<E>(state: Acceptor, event: Arrival<E>) -> Accept<E> {
    match (state, event) {
        (Acceptor::Listening, Arrival::Connection) => Accept::Spawn,
        (Acceptor::Listening, Arrival::AcceptFailure(e)) => Accept::Stop(e),
        (_, _) => Accept::Carry,
    }
}

/// The state after a run of events.
pub open spec fn acceptor_after_all<E>(state: Acceptor, events: Seq<Arrival<E>>) -> Acceptor
    decreases events.len(),
{
    if events.len() == 0 {
        state
    } else {
        acceptor_after(acceptor_after_all(state, events.drop_last()), events.last())
    }
}

/// How many sessions the acceptor starts over a run of events.
pub open spec fn spawned<E>(state: Acceptor, events: Seq<Arrival<E>>) -> nat
    decreases events.len(),
{
    if events.len() == 0 {
        0
    } else {
        let before = events.drop_last();
        spawned(state, before) + if accept_on(acceptor_after_all(state, before), events.last())
            is Spawn {
            1nat
        } else {
            0nat
        }
    }
}

/// How many connections arrive in a run of events.
pub open spec fn connections<E>(events: Seq<Arrival<E>>) -> nat
    decreases events.len(),
{
    if events.len() == 0 {
        0
    } else {
        connections(events.drop_last()) + if events.last() is Connection {
            1nat
        } else {
            0nat
        }
    }
}

/// Whether accepting never fails in a run of events.
pub open spec fn accepting_holds<E>(events: Seq<Arrival<E>>) -> bool {
    forall|i: int| 0 <= i < events.len() ==> !(#[trigger] events[i] is AcceptFailure)
}

impl Acceptor {
    /// An acceptor whose socket has just been bound.
    pub fn start() -> (acceptor: Acceptor)
        ensures
            acceptor == Acceptor::Listening,
    {
        Acceptor::Listening
    }

    /// Takes one event and says what to do about it. Every connection gets a
    /// session of its own, without limit. A failure to accept is fatal and
    /// goes to the caller unchanged. The close of a session, with or without
    /// error, changes nothing. A stopped acceptor does nothing more.
    pub fn step<E>(self, event: Arrival<E>) -> (next: (Acceptor, Accept<E>))
        ensures
            next.0 == acceptor_after(self, event),
            next.1 == accept_on(self, event),
    {
        match self {
            Acceptor::Stopped => (Acceptor::Stopped, Accept::Carry),
            Acceptor::Listening => match event {
                Arrival::Connection => (Acceptor::Listening, Accept::Spawn),
                Arrival::AcceptFailure(e) => (Acceptor::Stopped, Accept::Stop(e)),
                Arrival::SessionClosed(_) => (Acceptor::Listening, Accept::Carry),
            },
        }
    }
}

/// However a session ends, the acceptor stands as it stood and has nothing
/// to do: a fault inside a session reaches neither the acceptor nor, through
/// it, any other session.
pub proof fn session_fault_is_contained<E>(state: Acceptor, outcome: Result<(), E>)
    ensures
        acceptor_after(state, Arrival::SessionClosed(outcome)) == state,
        accept_on(state, Arrival::SessionClosed(outcome)) == Accept::<E>::Carry,
{
}

/// A failure to accept ends a listening acceptor, with the error unchanged.
pub proof fn accept_failure_is_fatal<E>(e: E)
    ensures
        acceptor_after(Acceptor::Listening, Arrival::AcceptFailure(e)) == Acceptor::Stopped,
        accept_on(Acceptor::Listening, Arrival::AcceptFailure(e)) == Accept::Stop(e),
{
}

/// As long as accepting does not fail, the acceptor goes on listening and
/// has started one session for each connection, however many there are and
/// however the sessions among them have ended.
pub proof fn one_session_per_connection<E>(events: Seq<Arrival<E>>)
    requires
        accepting_holds(events),
    ensures
        acceptor_after_all(Acceptor::Listening, events) == Acceptor::Listening,
        spawned(Acceptor::Listening, events) == connections(events),
    decreases events.len(),
{
    if events.len() > 0 {
        let before = events.drop_last();
        assert forall|i: int| 0 <= i < before.len() implies !(#[trigger] before[i]
            is AcceptFailure) by {
            assert(before[i] == events[i]);
        }
        one_session_per_connection(before);
        assert(!(events[events.len() - 1] is AcceptFailure));
    }
}

} // verus!
