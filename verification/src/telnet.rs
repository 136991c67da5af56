//! The two loops of a session, as decisions: what to do with each read of
//! the socket, with each line of local input, and with a preset message.
//!
//! The caller owns the socket, the terminal and the clock. It hands over what
//! it read and carries out what comes back; every write it is told to make is
//! followed by a flush.

use vstd::prelude::*;
use crate::args::Encode;
use crate::codec::{ascii_text, codec_takes, decoded, encoded, low_bytes};

verus! {

/// NUL, which alone in a chunk ends the receive loop.
pub const NUL: char = '\0';

/// SUB, which anywhere in a chunk ends the receive loop.
pub const SUB: char = '\u{1a}';

/// What the receive loop does after one read of the socket.
#[derive(Debug, PartialEq, Eq)]
pub enum Receive<E> {
    /// Print the text, flush, and read again.
    Continue(String),
    /// Print the text, flush, and end without error.
    Finish(String),
    /// End, handing the error of the read to the supervisor.
    Fail(E),
}

/// `Receive` with its text as a sequence of characters.
pub enum ReceiveView<E> {
    Continue(Seq<char>),
    Finish(Seq<char>),
    Fail(E),
}

impl<E> View for Receive<E> {
    type V = ReceiveView<E>;

    open spec fn view(&self) -> ReceiveView<E> {
        match *self {
            Receive::Continue(text) => ReceiveView::Continue(text@),
            Receive::Finish(text) => ReceiveView::Finish(text@),
            Receive::Fail(e) => ReceiveView::Fail(e),
        }
    }
}

/// What the interactive transmit loop does after one read of local input.
#[derive(Debug, PartialEq, Eq)]
pub enum Transmit<E> {
    /// Write the bytes, flush, and read the next line.
    Write(Vec<u8>),
    /// End without error: the input is at its end.
    Finish,
    /// End, handing the error of the read to the supervisor.
    Fail(E),
}

/// `Transmit` with its bytes as a sequence.
pub enum TransmitView<E> {
    Write(Seq<u8>),
    Finish,
    Fail(E),
}

impl<E> View for Transmit<E> {
    type V = TransmitView<E>;

    open spec fn view(&self) -> TransmitView<E> {
        match *self {
            Transmit::Write(bytes) => TransmitView::Write(bytes@),
            Transmit::Finish => TransmitView::Finish,
            Transmit::Fail(e) => TransmitView::Fail(e),
        }
    }
}

/// One step of a paced message.
#[derive(Debug, PartialEq, Eq)]
pub enum Paced {
    /// Write the bytes of one character and flush.
    Write(Vec<u8>),
    /// Suspend for this many milliseconds.
    Wait(u64),
}

/// `Paced` with its bytes as a sequence.
pub enum PacedView {
    Write(Seq<u8>),
    Wait(u64),
}

impl View for Paced {
    type V = PacedView;

    open spec fn view(&self) -> PacedView {
        match *self {
            Paced::Write(bytes) => PacedView::Write(bytes@),
            Paced::Wait(ms) => PacedView::Wait(ms),
        }
    }
}

/// Whether a decoded chunk ends the receive loop: it is empty, it is NUL
/// alone, or SUB stands anywhere in it.
pub open spec fn ends_receive(text: Seq<char>) -> bool {
    text.len() == 0 || text == seq![NUL] || text.contains(SUB)
}

/// What the receive loop does with the text of a chunk.
pub open spec fn shown<E>(text: Seq<char>) -> ReceiveView<E> {
    if ends_receive(text) {
        ReceiveView::Finish(text)
    } else {
        ReceiveView::Continue(text)
    }
}

/// What the receive loop does after a read that gave `chunk`.
pub open spec fn received<E>(encode: Encode, chunk: Seq<u8>) -> ReceiveView<E> {
    shown(decoded(encode, chunk))
}

/// What the receive loop does after one read of the socket, whichever way
/// the read went.
pub open spec fn turn<E>(encode: Encode, read: Result<Seq<u8>, E>) -> ReceiveView<E> {
    match read {
        Ok(chunk) => received(encode, chunk),
        Err(e) => ReceiveView::Fail(e),
    }
}

/// What a receive loop has come to over a run of reads.
pub struct ReceiveRun<E> {
    /// Everything it has printed, in order.
    pub shown: Seq<char>,
    /// How many reads it has made.
    pub reads: nat,
    /// How it ended, if it has.
    pub outcome: Option<Result<(), E>>,
}

/// The receive loop over a run of reads: turn after turn, each chunk decoded
/// by itself and printed, until a turn ends the loop. Reads after that one
/// are never made.
pub open spec fn receive_run<E>(encode: Encode, reads: Seq<Result<Seq<u8>, E>>) -> ReceiveRun<E>
    decreases reads.len(),
{
    if reads.len() == 0 {
        ReceiveRun { shown: Seq::empty(), reads: 0, outcome: None }
    } else {
        match turn(encode, reads[0]) {
            ReceiveView::Fail(e) => ReceiveRun {
                shown: Seq::empty(),
                reads: 1,
                outcome: Some(Err(e)),
            },
            ReceiveView::Finish(text) => ReceiveRun { shown: text, reads: 1, outcome: Some(Ok(())) },
            ReceiveView::Continue(text) => {
                let rest = receive_run(encode, reads.drop_first());
                ReceiveRun {
                    shown: text + rest.shown,
                    reads: 1 + rest.reads,
                    outcome: rest.outcome,
                }
            },
        }
    }
}

/// The texts of the chunks of a run of successful reads, each decoded by
/// itself, one after the other.
pub open spec fn texts_joined(encode: Encode, chunks: Seq<Seq<u8>>) -> Seq<char>
    decreases chunks.len(),
{
    if chunks.len() == 0 {
        Seq::empty()
    } else {
        decoded(encode, chunks[0]) + texts_joined(encode, chunks.drop_first())
    }
}

/// A run of reads that all succeed, with these chunks.
pub open spec fn all_read<E>(chunks: Seq<Seq<u8>>) -> Seq<Result<Seq<u8>, E>> {
    chunks.map_values(|chunk: Seq<u8>| Ok::<Seq<u8>, E>(chunk))
}

/// What the interactive transmit loop does after a read that gave `line`.
pub open spec fn sent<E>(encode: Encode, line: Seq<char>) -> TransmitView<E> {
    if line.len() == 0 {
        TransmitView::Finish
    } else {
        TransmitView::Write(encoded(encode, line))
    }
}

/// The steps of a paced message: each character written by itself, and a
/// wait of `t` milliseconds between one character and the next.
pub open spec fn paced_script(encode: Encode, message: Seq<char>, t: u64) -> Seq<PacedView>
    decreases message.len(),
{
    if message.len() == 0 {
        Seq::empty()
    } else if message.len() == 1 {
        seq![PacedView::Write(encoded(encode, seq![message[0]]))]
    } else {
        paced_script(encode, message.drop_last(), t).push(PacedView::Wait(t)).push(
            PacedView::Write(encoded(encode, seq![message.last()])),
        )
    }
}

/// The milliseconds that a script waits in all.
pub open spec fn waited(script: Seq<PacedView>) -> nat
    decreases script.len(),
{
    if script.len() == 0 {
        0
    } else {
        waited(script.drop_last()) + match script.last() {
            PacedView::Wait(ms) => ms as nat,
            PacedView::Write(_) => 0nat,
        }
    }
}

/// The bytes that a script writes, in order.
pub open spec fn written(script: Seq<PacedView>) -> Seq<u8>
    decreases script.len(),
{
    if script.len() == 0 {
        Seq::empty()
    } else {
        written(script.drop_last()) + match script.last() {
            PacedView::Write(bytes) => bytes,
            PacedView::Wait(_) => Seq::empty(),
        }
    }
}

/// The steps of a plan, each by its view.
pub open spec fn script_of(plan: Seq<Paced>) -> Seq<PacedView> {
    plan.map_values(|step: Paced| step@)
}

/// Whether a decoded chunk ends the receive loop.
pub fn is_terminator(text: &str) -> (ends: bool)
    ensures
        ends == ends_receive(text@),
{
    let mut seen: u8 = 0;
    let mut nul_first: bool = false;
    let mut sub: bool = false;
    for c in it: text.chars()
        invariant
            it.seq() == text@,
            seen == if it.index() < 2 { it.index() } else { 2 },
            nul_first == (it.index() > 0 && text@[0] == NUL),
            sub == text@.take(it.index() as int).contains(SUB),
    {
        proof {
            let before = text@.take(it.index() as int);
            let after = text@.take(it.index() + 1);
            assert(after =~= before.push(c));
            if before.contains(SUB) {
                let k = choose|k: int| 0 <= k < before.len() && before[k] == SUB;
                assert(after[k] == SUB);
            }
            if c == SUB {
                assert(after[it.index() as int] == SUB);
            }
        }
        if seen == 0 {
            nul_first = c == NUL;
        }
        if seen < 2 {
            seen = seen + 1;
        }
        if c == SUB {
            sub = true;
        }
    }
    proof {
        assert(text@.take(text@.len() as int) =~= text@);
        if seen == 1 && nul_first {
            assert(text@ =~= seq![NUL]);
        }
        if text@ == seq![NUL] {
            assert(text@.len() == 1);
            assert(text@[0] == NUL);
        }
    }
    seen == 0 || (seen == 1 && nul_first) || sub
}

impl<E> Receive<E> {
    /// What the receive loop does with the text of a chunk: the text is to
    /// be printed either way, and the loop ends on a terminator.
    pub fn from_text(text: String) -> (next: Receive<E>)
        ensures
            next@ == shown::<E>(text@),
    {
        if is_terminator(text.as_str()) {
            Receive::Finish(text)
        } else {
            Receive::Continue(text)
        }
    }
}

/// One turn of the receive loop. `read` is what reading the socket gave: the
/// bytes that were available, none at all where the peer has closed, or the
/// error. The chunk is decoded by itself, with nothing kept from earlier
/// reads, and its text is to be printed whether or not the loop goes on. The
/// loop ends without error on an empty text, on NUL alone and on SUB anywhere;
/// it ends with the error of a failed read, unchanged.
pub fn telnet_recv<E>(read: Result<&[u8], E>, encode: Encode) -> (next: Receive<E>)
    requires
        read matches Ok(chunk) ==> codec_takes(encode, chunk@.len()),
    ensures
        next@ == turn(
            encode,
            match read {
                Ok(chunk) => Ok(chunk@),
                Err(e) => Err(e),
            },
        ),
{
    match read {
        Ok(chunk) => Receive::from_text(encode.decode(chunk)),
        Err(e) => Receive::Fail(e),
    }
}

/// One turn of the interactive transmit loop. `line` is what reading a line
/// of local input gave: the line, nothing at all where the input is at its
/// end, or the error. A line is encoded and written; the loop ends without
/// error at the end of input, and with the error of a failed read, unchanged.
pub fn telnet_send<E>(line: Result<&str, E>, encode: Encode) -> (next: Transmit<E>)
    requires
        line matches Ok(text) ==> codec_takes(encode, text@.len()),
    ensures
        next@ == (match line {
            Ok(text) => sent(encode, text@),
            Err(e) => TransmitView::Fail(e),
        }),
{
    match line {
        Ok(text) => {
            if text.is_empty() {
                Transmit::Finish
            } else {
                Transmit::Write(encode.encode(text))
            }
        },
        Err(e) => Transmit::Fail(e),
    }
}

/// The bytes of a preset message that is sent whole: written once, then the
/// transmit loop ends.
pub fn telnet_send_message(encode: Encode, message: &str) -> (bytes: Vec<u8>)
    requires
        codec_takes(encode, message@.len()),
    ensures
        bytes@ == encoded(encode, message@),
{
    encode.encode(message)
}

/// The steps of a preset message that is sent one character at a time, with
/// a wait of `t` milliseconds after each character but the last.
pub fn telnet_send_message_per_one_char(
    encode: Encode,
    message: &str,
    t: u64,
) -> (plan: Vec<Paced>)
    ensures
        script_of(plan@) == paced_script(encode, message@, t),
{
    let mut plan: Vec<Paced> = Vec::new();
    for c in it: message.chars()
        invariant
            it.seq() == message@,
            script_of(plan@) == paced_script(encode, message@.take(it.index() as int), t),
    {
        let ghost before = plan@;
        let ghost done = message@.take(it.index() as int);
        let ghost now = message@.take(it.index() + 1);
        let first = plan.len() == 0;
        if !first {
            plan.push(Paced::Wait(t));
        }
        let mut one = String::new();
        one.push(c);
        let bytes = encode.encode(one.as_str());
        plan.push(Paced::Write(bytes));
        proof {
            assert(one@ =~= seq![c]);
            assert(now.drop_last() =~= done);
            assert(now.last() == c);
            assert(script_of(before).len() == before.len());
            if done.len() == 0 {
                assert(before.len() == 0);
                assert(now[0] == c);
                assert(script_of(plan@) =~= paced_script(encode, now, t));
            } else {
                paced_script_len(encode, done, t);
                assert(before.len() > 0);
                assert(script_of(plan@) =~= script_of(before).push(PacedView::Wait(t)).push(
                    PacedView::Write(encoded(encode, seq![c])),
                ));
            }
        }
    }
    assert(message@.take(message@.len() as int) =~= message@);
    plan
}

/// A read that gives no bytes, as when the peer has closed, ends the receive
/// loop without error and with nothing to print.
pub proof fn closure_ends_receive<E>(encode: Encode)
    ensures
        received::<E>(encode, Seq::empty()) == ReceiveView::<E>::Finish(Seq::empty()),
{
    assert(decoded(encode, Seq::<u8>::empty()) =~= Seq::<char>::empty());
}

/// A chunk that decodes to NUL alone ends the receive loop without error,
/// once its text is handed out.
pub proof fn nul_alone_ends_receive<E>(encode: Encode, chunk: Seq<u8>)
    requires
        decoded(encode, chunk) == seq![NUL],
    ensures
        received::<E>(encode, chunk) == ReceiveView::<E>::Finish(seq![NUL]),
{
}

/// A chunk whose text holds SUB anywhere ends the receive loop without
/// error, once its text is handed out.
pub proof fn sub_ends_receive<E>(encode: Encode, chunk: Seq<u8>)
    requires
        decoded(encode, chunk).contains(SUB),
    ensures
        received::<E>(encode, chunk) == ReceiveView::<E>::Finish(decoded(encode, chunk)),
{
}

/// Under either encoding the single byte 0 is NUL alone, and so ends the
/// receive loop.
pub proof fn nul_byte_ends_receive<E>(encode: Encode)
    ensures
        received::<E>(encode, seq![0u8]) == ReceiveView::<E>::Finish(seq![NUL]),
{
    assert(decoded(encode, seq![0u8]) =~= seq![NUL]);
}

/// Under the passthrough a chunk that holds the byte 0x1A anywhere ends the
/// receive loop.
pub proof fn sub_byte_ends_receive<E>(chunk: Seq<u8>)
    requires
        chunk.contains(0x1Au8),
    ensures
        received::<E>(Encode::UTF8, chunk) == ReceiveView::<E>::Finish(
            decoded(Encode::UTF8, chunk),
        ),
{
    let k = choose|k: int| 0 <= k < chunk.len() && chunk[k] == 0x1Au8;
    assert(decoded(Encode::UTF8, chunk)[k] == SUB);
}

/// Over any run of reads, the receive loop ends without error at the first
/// chunk whose text is a terminator: it has then made one read for each
/// chunk up to that one and no more, and has printed the texts of just those
/// chunks, each decoded by itself, in order. A chunk whose text holds SUB is
/// such a chunk, and so is one whose text is NUL alone.
pub proof fn run_ends_at_first_terminator<E>(
    encode: Encode,
    chunks: Seq<Seq<u8>>,
    later: Seq<Result<Seq<u8>, E>>,
)
    requires
        chunks.len() > 0,
        forall|i: int|
            0 <= i < chunks.len() - 1 ==> !ends_receive(decoded(encode, #[trigger] chunks[i])),
        ends_receive(decoded(encode, chunks.last())),
    ensures
        receive_run(encode, all_read::<E>(chunks) + later) == (ReceiveRun::<E> {
            shown: texts_joined(encode, chunks),
            reads: chunks.len(),
            outcome: Some(Ok(())),
        }),
    decreases chunks.len(),
{
    let reads = all_read::<E>(chunks) + later;
    let rest = chunks.drop_first();
    assert(reads[0] == Ok::<Seq<u8>, E>(chunks[0]));
    assert(texts_joined(encode, Seq::<Seq<u8>>::empty()) =~= Seq::<char>::empty());
    if chunks.len() == 1 {
        assert(chunks.last() == chunks[0]);
        assert(rest =~= Seq::<Seq<u8>>::empty());
        assert(texts_joined(encode, chunks) =~= decoded(encode, chunks[0]));
    } else {
        assert(!ends_receive(decoded(encode, chunks[0])));
        assert(rest.last() == chunks.last());
        assert forall|i: int| 0 <= i < rest.len() - 1 implies !ends_receive(
            decoded(encode, #[trigger] rest[i]),
        ) by {
            assert(rest[i] == chunks[i + 1]);
        }
        run_ends_at_first_terminator::<E>(encode, rest, later);
        assert(reads.drop_first() =~= all_read::<E>(rest) + later);
    }
}

/// Over any run of reads, the receive loop ends with the error of the first
/// read that fails, unchanged, where no chunk before it is a terminator: it
/// has then printed the texts of the chunks before it and made no read
/// after it.
pub proof fn run_ends_at_first_failure<E>(
    encode: Encode,
    chunks: Seq<Seq<u8>>,
    e: E,
    later: Seq<Result<Seq<u8>, E>>,
)
    requires
        forall|i: int|
            0 <= i < chunks.len() ==> !ends_receive(decoded(encode, #[trigger] chunks[i])),
    ensures
        receive_run(encode, all_read::<E>(chunks).push(Err(e)) + later) == (ReceiveRun::<E> {
            shown: texts_joined(encode, chunks),
            reads: chunks.len() + 1,
            outcome: Some(Err(e)),
        }),
    decreases chunks.len(),
{
    let reads = all_read::<E>(chunks).push(Err(e)) + later;
    if chunks.len() == 0 {
        assert(reads[0] == Err::<Seq<u8>, E>(e));
        assert(texts_joined(encode, chunks) =~= Seq::<char>::empty());
    } else {
        let rest = chunks.drop_first();
        assert(reads[0] == Ok::<Seq<u8>, E>(chunks[0]));
        assert(!ends_receive(decoded(encode, chunks[0])));
        assert forall|i: int| 0 <= i < rest.len() implies !ends_receive(
            decoded(encode, #[trigger] rest[i]),
        ) by {
            assert(rest[i] == chunks[i + 1]);
        }
        run_ends_at_first_failure::<E>(encode, rest, e, later);
        assert(reads.drop_first() =~= all_read::<E>(rest).push(Err(e)) + later);
    }
}

/// As long as every read succeeds and no chunk is a terminator, the receive
/// loop goes on: it has printed the text of every chunk and has not ended.
pub proof fn run_goes_on<E>(encode: Encode, chunks: Seq<Seq<u8>>)
    requires
        forall|i: int|
            0 <= i < chunks.len() ==> !ends_receive(decoded(encode, #[trigger] chunks[i])),
    ensures
        receive_run(encode, all_read::<E>(chunks)) == (ReceiveRun::<E> {
            shown: texts_joined(encode, chunks),
            reads: chunks.len(),
            outcome: None,
        }),
    decreases chunks.len(),
{
    let reads = all_read::<E>(chunks);
    if chunks.len() == 0 {
        assert(texts_joined(encode, chunks) =~= Seq::<char>::empty());
    } else {
        let rest = chunks.drop_first();
        assert(reads[0] == Ok::<Seq<u8>, E>(chunks[0]));
        assert(!ends_receive(decoded(encode, chunks[0])));
        assert forall|i: int| 0 <= i < rest.len() implies !ends_receive(
            decoded(encode, #[trigger] rest[i]),
        ) by {
            assert(rest[i] == chunks[i + 1]);
        }
        run_goes_on::<E>(encode, rest);
        assert(reads.drop_first() =~= all_read::<E>(rest));
    }
}

/// The writes of a paced message, joined, are the bytes of the message sent
/// whole, under the passthrough for every message and under Shift-JIS for
/// one that is ASCII throughout.
pub proof fn paced_script_writes_message(encode: Encode, message: Seq<char>, t: u64)
    requires
        encode == Encode::UTF8 || ascii_text(message),
    ensures
        written(paced_script(encode, message, t)) == encoded(encode, message),
    decreases message.len(),
{
    let script = paced_script(encode, message, t);
    if message.len() == 0 {
        assert(encoded(encode, message) =~= Seq::<u8>::empty());
    } else if message.len() == 1 {
        assert(script.drop_last() =~= Seq::<PacedView>::empty());
        assert(written(script.drop_last()) =~= Seq::<u8>::empty());
        assert(message =~= seq![message[0]]);
        assert(written(script) =~= encoded(encode, message));
    } else {
        let front = message.drop_last();
        let one = seq![message.last()];
        let before = paced_script(encode, front, t);
        assert(ascii_text(message) ==> ascii_text(front) && ascii_text(one)) by {
            if ascii_text(message) {
                assert forall|i: int| 0 <= i < front.len() implies (front[i] as u32) < 0x80 by {
                    assert(front[i] == message[i]);
                }
                assert(one[0] == message[message.len() - 1]);
            }
        }
        paced_script_writes_message(encode, front, t);
        assert(script.drop_last() =~= before.push(PacedView::Wait(t)));
        assert(script.drop_last().drop_last() =~= before);
        assert(written(script.drop_last()) =~= written(before));
        assert(script.last() == PacedView::Write(encoded(encode, one)));
        assert(written(script) =~= encoded(encode, front) + encoded(encode, one));
        assert(low_bytes(front) + low_bytes(one) =~= low_bytes(message));
    }
}

/// In a paced message the character at `i` is written at step `2 * i`, by
/// itself, and a wait of `t` follows it unless it is the last: nothing
/// follows the last write.
pub proof fn paced_script_steps(encode: Encode, message: Seq<char>, t: u64, i: int)
    requires
        0 <= i < message.len(),
    ensures
        paced_script(encode, message, t).len() == 2 * message.len() - 1,
        paced_script(encode, message, t)[2 * i] == PacedView::Write(
            encoded(encode, seq![message[i]]),
        ),
        i + 1 < message.len() ==> paced_script(encode, message, t)[2 * i + 1] == PacedView::Wait(
            t,
        ),
    decreases message.len(),
{
    paced_script_len(encode, message, t);
    if message.len() > 1 {
        let front = message.drop_last();
        paced_script_len(encode, front, t);
        if i < front.len() {
            paced_script_steps(encode, front, t, i);
        }
    }
}

/// A paced message of `n` characters waits `n - 1` times `t` milliseconds
/// in all: once between each two characters, and not after the last.
pub proof fn paced_script_waits(encode: Encode, message: Seq<char>, t: u64)
    ensures
        waited(paced_script(encode, message, t)) == if message.len() == 0 {
            0
        } else {
            (message.len() - 1) * t
        },
    decreases message.len(),
{
    let script = paced_script(encode, message, t);
    if message.len() == 0 {
    } else if message.len() == 1 {
        assert(script.drop_last() =~= Seq::<PacedView>::empty());
        assert(waited(script.drop_last()) == 0);
        assert(waited(script) == 0);
        assert((message.len() - 1) * t == 0) by (nonlinear_arith)
            requires
                message.len() == 1,
        ;
    } else {
        let front = paced_script(encode, message.drop_last(), t);
        paced_script_waits(encode, message.drop_last(), t);
        assert(script.drop_last() =~= front.push(PacedView::Wait(t)));
        assert(script.drop_last().drop_last() =~= front);
        assert(waited(script.drop_last()) == waited(front) + t);
        assert(script.last() is Write);
        assert(waited(script) == waited(script.drop_last()));
        assert((message.drop_last().len() - 1) * t + t == (message.len() - 1) * t)
            by (nonlinear_arith)
            requires
                message.drop_last().len() == message.len() - 1,
        ;
    }
}

/// A paced message of `n` characters has `n` writes and, between them,
/// `n - 1` waits.
pub proof fn paced_script_len(encode: Encode, message: Seq<char>, t: u64)
    ensures
        paced_script(encode, message, t).len() == if message.len() == 0 {
            0
        } else {
            2 * message.len() - 1
        },
    decreases message.len(),
{
    if message.len() > 1 {
        paced_script_len(encode, message.drop_last(), t);
    }
}

} // verus!
