//! The codec: text to bytes and back, for the two encodings of a session.
//!
//! The UTF-8 variant is a passthrough between bytes and the code points of
//! equal value, not a conforming UTF-8 transcoder: a byte decodes to the
//! character of its number, and a character encodes to its low byte. The
//! Shift-JIS variant is the table-driven transcoding of `encoding_rs`. Either
//! way the encoding of a session is the one it was given: no byte of a chunk,
//! a byte order mark no more than any other, changes how the chunk is read.

use vstd::prelude::*;
use crate::args::Encode;

verus! {

/// The longest input, in bytes or in characters, that is handed to the
/// Shift-JIS transcoder. The transcoder sizes its output buffer at a small
/// multiple of the input's length and stops the program where that
/// overflows `usize`; up to this length it cannot.
pub const MAX_SHIFT_JIS_INPUT: usize = usize::MAX / 128;

/// The text that `encoding_rs::SHIFT_JIS.decode_without_bom_handling` makes
/// of `bytes`: Shift-JIS whatever the bytes begin with.
pub uninterp spec fn shift_jis_decoded(bytes: Seq<u8>) -> Seq<char>;

/// The bytes that `encoding_rs::SHIFT_JIS.encode` makes of `text`.
pub uninterp spec fn shift_jis_encoded(text: Seq<char>) -> Seq<u8>;

/// The text of a Shift-JIS chunk: ASCII as it stands, anything else as the
/// transcoder has it.
pub open spec fn shift_jis_text(bytes: Seq<u8>) -> Seq<char> {
    if ascii_bytes(bytes) {
        bytes_as_chars(bytes)
    } else {
        shift_jis_decoded(bytes)
    }
}

/// The Shift-JIS bytes of a text: ASCII as it stands, anything else as the
/// transcoder has it.
pub open spec fn shift_jis_bytes(text: Seq<char>) -> Seq<u8> {
    if ascii_text(text) {
        low_bytes(text)
    } else {
        shift_jis_encoded(text)
    }
}

/// Every byte is below 0x80.
pub open spec fn ascii_bytes(bytes: Seq<u8>) -> bool {
    forall|i: int| 0 <= i < bytes.len() ==> bytes[i] < 0x80
}

/// Every character is below U+0080.
pub open spec fn ascii_text(text: Seq<char>) -> bool {
    forall|i: int| 0 <= i < text.len() ==> (text[i] as u32) < 0x80
}

/// Each byte as the character of equal number.
pub open spec fn bytes_as_chars(bytes: Seq<u8>) -> Seq<char> {
    Seq::new(bytes.len(), |i: int| bytes[i] as char)
}

/// Each character as its low byte.
pub open spec fn low_bytes(text: Seq<char>) -> Seq<u8> {
    Seq::new(text.len(), |i: int| ((text[i] as u32) % 256) as u8)
}

/// The text that a chunk of bytes decodes to.
pub open spec fn decoded(encode: Encode, bytes: Seq<u8>) -> Seq<char> {
    match encode {
        Encode::UTF8 => bytes_as_chars(bytes),
        Encode::SHIFTJIS => shift_jis_text(bytes),
    }
}

/// The bytes that a text encodes to.
pub open spec fn encoded(encode: Encode, text: Seq<char>) -> Seq<u8> {
    match encode {
        Encode::UTF8 => low_bytes(text),
        Encode::SHIFTJIS => shift_jis_bytes(text),
    }
}

/// Whether the codec takes an input of this length: the passthrough takes
/// any, the Shift-JIS transcoder what it can size a buffer for.
pub open spec fn codec_takes(encode: Encode, len: nat) -> bool {
    encode == Encode::SHIFTJIS ==> len <= MAX_SHIFT_JIS_INPUT
}

/// `String::push` appends one character.
pub assume_specification[ String::push ](s: &mut String, c: char)
    ensures
        final(s)@ == old(s)@.push(c),
;

/// Calls `encoding_rs::SHIFT_JIS.decode_without_bom_handling` and keeps the
/// text. The call reads every chunk as Shift-JIS, a leading byte order mark
/// included, and replaces malformed sequences, so its result is named rather
/// than written out. Stated of it beyond the name: input that is ASCII
/// throughout comes back as the same characters, as the call documents (it
/// borrows such input). Left out by `requires`: input longer than
/// `MAX_SHIFT_JIS_INPUT`, for which the call might panic on sizing its buffer.
#[verifier::external_body]
fn shift_jis_decode(bytes: &[u8]) -> (text: String)
    requires
        bytes@.len() <= MAX_SHIFT_JIS_INPUT,
    ensures
        text@ == (if ascii_bytes(bytes@) {
            bytes_as_chars(bytes@)
        } else {
            shift_jis_decoded(bytes@)
        }),
{
    let (cow, _) = encoding_rs::SHIFT_JIS.decode_without_bom_handling(bytes);
    cow.into_owned()
}

/// Calls `encoding_rs::SHIFT_JIS.encode` and keeps the bytes. The call
/// replaces unmappable characters by numeric character references, so its
/// result is named rather than written out. Stated of it beyond the name:
/// text that is ASCII throughout comes back as the bytes of equal number, as
/// the call documents (it borrows such text). Left out by `requires`: text
/// longer than `MAX_SHIFT_JIS_INPUT`, for which the call might panic on
/// sizing its buffer.
#[verifier::external_body]
fn shift_jis_encode(text: &str) -> (bytes: Vec<u8>)
    requires
        text@.len() <= MAX_SHIFT_JIS_INPUT,
    ensures
        bytes@ == (if ascii_text(text@) {
            low_bytes(text@)
        } else {
            shift_jis_encoded(text@)
        }),
{
    let (cow, _, _) = encoding_rs::SHIFT_JIS.encode(text);
    cow.into_owned()
}

/// Decodes by passthrough: one character per byte.
fn decode_passthrough(bytes: &[u8]) -> (text: String)
    ensures
        text@ == bytes_as_chars(bytes@),
{
    let mut text = String::new();
    let mut i: usize = 0;
    while i < bytes.len()
        invariant
            i <= bytes@.len(),
            text@ == bytes_as_chars(bytes@.take(i as int)),
        decreases bytes@.len() - i,
    {
        text.push(bytes[i] as char);
        assert(bytes_as_chars(bytes@.take(i as int)).push(bytes@[i as int] as char)
            =~= bytes_as_chars(bytes@.take(i + 1)));
        i = i + 1;
    }
    assert(bytes@.take(i as int) =~= bytes@);
    text
}

/// Encodes by passthrough: one byte per character, its low byte.
fn encode_passthrough(text: &str) -> (bytes: Vec<u8>)
    ensures
        bytes@ == low_bytes(text@),
{
    let mut bytes: Vec<u8> = Vec::new();
    for c in it: text.chars()
        invariant
            it.seq() == text@,
            bytes@ == low_bytes(text@.take(it.index() as int)),
    {
        let n: u32 = c as u32;
        bytes.push((n % 256) as u8);
        assert(low_bytes(text@.take(it.index() as int)).push(((c as u32) % 256) as u8)
            =~= low_bytes(text@.take(it.index() + 1)));
    }
    assert(text@.take(text@.len() as int) =~= text@);
    bytes
}

impl Encode {
    /// Whether the codec takes an input of `len` bytes or characters.
    pub fn takes(&self, len: usize) -> (ok: bool)
        ensures
            ok == codec_takes(*self, len as nat),
    {
        match self {
            Encode::UTF8 => true,
            Encode::SHIFTJIS => len <= MAX_SHIFT_JIS_INPUT,
        }
    }

    /// Decodes one chunk of bytes to text. Never fails: whatever the bytes
    /// are, some text comes back.
    pub fn decode(&self, bytes: &[u8]) -> (text: String)
        requires
            codec_takes(*self, bytes@.len()),
        ensures
            text@ == decoded(*self, bytes@),
    {
        match self {
            Encode::UTF8 => decode_passthrough(bytes),
            Encode::SHIFTJIS => shift_jis_decode(bytes),
        }
    }

    /// Encodes a text to bytes. Never fails: whatever the text is, some
    /// bytes come back.
    pub fn encode(&self, text: &str) -> (bytes: Vec<u8>)
        requires
            codec_takes(*self, text@.len()),
        ensures
            bytes@ == encoded(*self, text@),
    {
        match self {
            Encode::UTF8 => encode_passthrough(text),
            Encode::SHIFTJIS => shift_jis_encode(text),
        }
    }
}

/// Under the passthrough, encoding what was decoded gives the bytes back,
/// whatever they are.
pub proof fn passthrough_round_trip(bytes: Seq<u8>)
    ensures
        encoded(Encode::UTF8, decoded(Encode::UTF8, bytes)) == bytes,
{
    assert(low_bytes(bytes_as_chars(bytes)) =~= bytes);
}

/// Under either encoding, encoding what was decoded gives the bytes back
/// where they are ASCII throughout.
pub proof fn ascii_round_trip(encode: Encode, bytes: Seq<u8>)
    requires
        ascii_bytes(bytes),
    ensures
        encoded(encode, decoded(encode, bytes)) == bytes,
{
    assert(ascii_text(bytes_as_chars(bytes)));
    assert(low_bytes(bytes_as_chars(bytes)) =~= bytes);
}

} // verus!
