//! The wire codec: one message is a four-byte little-endian length followed by
//! that many bytes of payload, and the payload is one frame.
//!
//! `write_frame` and `read_frame` work on bytes in memory. A transport that
//! carries whole messages can send the payload alone; a transport that carries
//! a stream of bytes sends the messages one after the other.

use vstd::prelude::*;
use crate::frame::Frame;
use crate::frame::FrameView;
use crate::wire::decode_frame;
use crate::wire::encode_frame;
use crate::wire::frame_bytes;
use crate::wire::frame_fits;
use crate::wire::frame_of;
use crate::wire::lemma_payload_round_trip;

verus! {

/// The number of bytes of the length prefix.
pub const PREFIX_LEN: usize = 4;

/// The longest payload that is written or accepted: 16 MiB.
pub const MAX_FRAME_LEN: usize = 16_777_216;

#[derive(Debug, Clone, Copy, PartialEq, Eq, Structural)]
pub enum CodecError {
    /// The payload, or the length that a prefix announces, is over
    /// `MAX_FRAME_LEN`. A stream with such a prefix cannot be read any
    /// further.
    Oversized,
    /// The bytes end inside a prefix or inside a payload.
    Truncated,
    /// The payload is no frame. The message ends at `next`: the stream can be
    /// read on from there.
    Malformed { next: usize },
}

/// The four bytes that stand for `len`, lowest byte first.
pub open spec fn length_prefix(len: nat) -> Seq<u8> {
    seq![
        (len % 256) as u8,
        (len / 256 % 256) as u8,
        (len / 65_536 % 256) as u8,
        (len / 16_777_216 % 256) as u8,
    ]
}

/// The length that the first four bytes of `bytes` stand for.
pub open spec fn prefix_value(bytes: Seq<u8>) -> nat
    recommends
        bytes.len() >= 4,
{
    (bytes[0] as nat) + (bytes[1] as nat) * 256 + (bytes[2] as nat) * 65_536 + (bytes[3] as nat)
        * 16_777_216
}

/// The message that carries `payload`.
pub open spec fn framed(payload: Seq<u8>) -> Seq<u8> {
    length_prefix(payload.len()) + payload
}

/// What reading one message from `input` gives: nothing where the input has
/// ended, else the payload and the number of bytes that the message took, or
/// the reason why there is no message.
pub open spec fn read_result(input: Seq<u8>) -> Result<Option<(Seq<u8>, int)>, CodecError> {
    if input.len() == 0 {
        Ok(None)
    } else if input.len() < PREFIX_LEN {
        Err(CodecError::Truncated)
    } else {
        let len = prefix_value(input);
        if len > MAX_FRAME_LEN {
            Err(CodecError::Oversized)
        } else if input.len() < PREFIX_LEN + len {
            Err(CodecError::Truncated)
        } else {
            Ok(Some((input.subrange(PREFIX_LEN as int, PREFIX_LEN + len), PREFIX_LEN + len)))
        }
    }
}

/// The length prefix for a payload of `len` bytes.
pub fn encode_length(len: usize) -> (r: Result<Vec<u8>, CodecError>)
    ensures
        len <= MAX_FRAME_LEN ==> r is Ok && r->Ok_0@ == length_prefix(len as nat),
        len > MAX_FRAME_LEN ==> r == Err::<Vec<u8>, CodecError>(CodecError::Oversized),
{
    if len > MAX_FRAME_LEN {
        return Err(CodecError::Oversized);
    }
    let mut prefix: Vec<u8> = Vec::new();
    prefix.push((len % 256) as u8);
    prefix.push((len / 256 % 256) as u8);
    prefix.push((len / 65_536 % 256) as u8);
    prefix.push((len / 16_777_216 % 256) as u8);
    assert(prefix@ =~= length_prefix(len as nat));
    Ok(prefix)
}

/// The payload length that the four bytes of `prefix` announce.
pub fn decode_length(prefix: &[u8]) -> (r: Result<usize, CodecError>)
    ensures
        prefix@.len() != PREFIX_LEN ==> r == Err::<usize, CodecError>(CodecError::Truncated),
        prefix@.len() == PREFIX_LEN && prefix_value(prefix@) > MAX_FRAME_LEN ==> r == Err::<
            usize,
            CodecError,
        >(CodecError::Oversized),
        prefix@.len() == PREFIX_LEN && prefix_value(prefix@) <= MAX_FRAME_LEN ==> r == Ok::<
            usize,
            CodecError,
        >(prefix_value(prefix@) as usize),
{
    if prefix.len() != PREFIX_LEN {
        return Err(CodecError::Truncated);
    }
    let len: u64 = (prefix[0] as u64) + (prefix[1] as u64) * 256 + (prefix[2] as u64) * 65_536 + (
    prefix[3] as u64) * 16_777_216;
    if len > MAX_FRAME_LEN as u64 {
        Err(CodecError::Oversized)
    } else {
        Ok(len as usize)
    }
}

/// Appends the message that carries `payload` to `writer`. A payload over
/// `MAX_FRAME_LEN` is refused and nothing is written.
pub fn write_payload(writer: &mut Vec<u8>, payload: &[u8]) -> (r: Result<(), CodecError>)
    ensures
        payload@.len() <= MAX_FRAME_LEN ==> r is Ok && final(writer)@ == old(writer)@ + framed(
            payload@,
        ),
        payload@.len() > MAX_FRAME_LEN ==> r == Err::<(), CodecError>(CodecError::Oversized)
            && final(writer)@ == old(writer)@,
{
    match encode_length(payload.len()) {
        Err(e) => Err(e),
        Ok(prefix) => {
            writer.extend_from_slice(prefix.as_slice());
            writer.extend_from_slice(payload);
            assert(writer@ =~= old(writer)@ + framed(payload@));
            Ok(())
        },
    }
}

/// Reads the payload of the message that starts at `start` in `reader`.
///
/// Where the bytes end at `start` the stream has ended and there is no message;
/// that is no error. Else the result is the payload together with the position
/// after the message.
pub fn read_payload(reader: &[u8], start: usize) -> (r: Result<Option<(Vec<u8>, usize)>, CodecError>)
    ensures
        ({
            let input = if start <= reader@.len() {
                reader@.skip(start as int)
            } else {
                Seq::<u8>::empty()
            };
            match read_result(input) {
                Ok(None) => r == Ok::<Option<(Vec<u8>, usize)>, CodecError>(None),
                Ok(Some((payload, taken))) => r matches Ok(Some((bytes, next))) && bytes@ == payload
                    && next == start + taken,
                Err(e) => r == Err::<Option<(Vec<u8>, usize)>, CodecError>(e),
            }
        }),
{
    if start >= reader.len() {
        return Ok(None);
    }
    let ghost input = reader@.skip(start as int);
    let available: usize = reader.len() - start;
    if available < PREFIX_LEN {
        return Err(CodecError::Truncated);
    }
    let len: u64 = (reader[start] as u64) + (reader[start + 1] as u64) * 256 + (reader[start
        + 2] as u64) * 65_536 + (reader[start + 3] as u64) * 16_777_216;
    assert(len == prefix_value(input));
    if len > MAX_FRAME_LEN as u64 {
        return Err(CodecError::Oversized);
    }
    let len: usize = len as usize;
    if available - PREFIX_LEN < len {
        return Err(CodecError::Truncated);
    }
    let first: usize = start + PREFIX_LEN;
    let payload = vstd::slice::slice_to_vec(vstd::slice::slice_subrange(reader, first, first + len));
    assert(payload@ =~= input.subrange(PREFIX_LEN as int, PREFIX_LEN + len));
    Ok(Some((payload, first + len)))
}

/// The length that a prefix stands for is the length it was made from.
pub proof fn lemma_prefix_round_trip(len: nat)
    requires
        len < 0x1_0000_0000,
    ensures
        length_prefix(len).len() == PREFIX_LEN,
        prefix_value(length_prefix(len)) == len,
{
}

/// A message that was written is read back as it was: the payload comes back
/// byte for byte, whatever follows the message, and the message is taken
/// whole. This holds of the empty payload too.
pub proof fn lemma_payload_framing_round_trip(payload: Seq<u8>, rest: Seq<u8>)
    requires
        payload.len() <= MAX_FRAME_LEN,
    ensures
        read_result(framed(payload) + rest) == Ok::<Option<(Seq<u8>, int)>, CodecError>(
            Some((payload, PREFIX_LEN + payload.len())),
        ),
{
    let input = framed(payload) + rest;
    lemma_prefix_round_trip(payload.len());
    assert(prefix_value(input) == prefix_value(length_prefix(payload.len())));
    assert(input.subrange(PREFIX_LEN as int, PREFIX_LEN + payload.len()) =~= payload);
}

/// Messages written one after the other are read back one after the other.
pub proof fn lemma_payloads_in_sequence(first: Seq<u8>, second: Seq<u8>)
    requires
        first.len() <= MAX_FRAME_LEN,
        second.len() <= MAX_FRAME_LEN,
    ensures
        ({
            let stream = framed(first) + framed(second);
            &&& read_result(stream) == Ok::<Option<(Seq<u8>, int)>, CodecError>(
                Some((first, PREFIX_LEN + first.len())),
            )
            &&& read_result(stream.skip(PREFIX_LEN + first.len())) == Ok::<
                Option<(Seq<u8>, int)>,
                CodecError,
            >(Some((second, PREFIX_LEN + second.len())))
            &&& read_result(stream.skip(PREFIX_LEN + first.len() + PREFIX_LEN + second.len()))
                == Ok::<Option<(Seq<u8>, int)>, CodecError>(None)
        }),
{
    let stream = framed(first) + framed(second);
    lemma_payload_framing_round_trip(first, framed(second));
    lemma_payload_framing_round_trip(second, Seq::<u8>::empty());
    lemma_prefix_round_trip(first.len());
    lemma_prefix_round_trip(second.len());
    assert(stream.skip(PREFIX_LEN + first.len()) =~= framed(second) + Seq::<u8>::empty());
}


/// The message that carries `frame`.
pub open spec fn message_of(frame: FrameView) -> Seq<u8> {
    framed(frame_bytes(frame))
}

/// What reading one frame from `input` gives: nothing where the input has
/// ended, else the frame and the number of bytes that its message took, or
/// the reason why there is no frame. Of a message whose payload is no frame
/// the reason names the number of bytes that the message took.
pub open spec fn read_message(input: Seq<u8>) -> Result<Option<(FrameView, int)>, CodecError> {
    match read_result(input) {
        Ok(None) => Ok(None),
        Ok(Some((payload, taken))) => match frame_of(payload) {
            Some(frame) => Ok(Some((frame, taken))),
            None => Err(CodecError::Malformed { next: taken as usize }),
        },
        Err(e) => Err(e),
    }
}

/// Appends the message that carries `frame` to `writer`. A frame whose
/// payload is over `MAX_FRAME_LEN` is refused and nothing is written.
pub fn write_frame(writer: &mut Vec<u8>, frame: &Frame) -> (r: Result<(), CodecError>)
    ensures
        frame_bytes(frame@).len() <= MAX_FRAME_LEN ==> r is Ok && final(writer)@ == old(writer)@
            + message_of(frame@),
        frame_bytes(frame@).len() > MAX_FRAME_LEN ==> r == Err::<(), CodecError>(
            CodecError::Oversized,
        ) && final(writer)@ == old(writer)@,
        frame_fits(frame@),
{
    let payload = encode_frame(frame);
    write_payload(writer, payload.as_slice())
}

/// Reads the frame whose message starts at `start` in `reader`.
///
/// Where the bytes end at `start` the stream has ended and there is no frame;
/// that is no error. Else the result is the frame together with the position
/// after its message. A position in an error is counted from the beginning of
/// `reader` too.
pub fn read_frame(reader: &[u8], start: usize) -> (r: Result<Option<(Frame, usize)>, CodecError>)
    ensures
        ({
            let input = if start <= reader@.len() {
                reader@.skip(start as int)
            } else {
                Seq::<u8>::empty()
            };
            match read_message(input) {
                Ok(None) => r == Ok::<Option<(Frame, usize)>, CodecError>(None),
                Ok(Some((frame, taken))) => r matches Ok(Some((got, next))) && got@ == frame && next
                    == start + taken,
                Err(CodecError::Malformed { next }) => r == Err::<
                    Option<(Frame, usize)>,
                    CodecError,
                >(CodecError::Malformed { next: (start + next) as usize }),
                Err(e) => r == Err::<Option<(Frame, usize)>, CodecError>(e),
            }
        }),
{
    match read_payload(reader, start) {
        Ok(None) => Ok(None),
        Ok(Some((payload, next))) => match decode_frame(payload.as_slice()) {
            Some(frame) => Ok(Some((frame, next))),
            None => Err(CodecError::Malformed { next }),
        },
        Err(e) => Err(e),
    }
}

/// A frame that was written is read back equal to what was written, whatever
/// follows its message, and the message is taken whole. This holds of every
/// frame whose payload is not over `MAX_FRAME_LEN`: of every variant, and of
/// a frame with an empty chunk, an empty text or an empty list of files too.
pub proof fn lemma_frame_round_trip(frame: FrameView, rest: Seq<u8>)
    requires
        frame_fits(frame),
        frame_bytes(frame).len() <= MAX_FRAME_LEN,
    ensures
        read_message(message_of(frame) + rest) == Ok::<Option<(FrameView, int)>, CodecError>(
            Some((frame, PREFIX_LEN + frame_bytes(frame).len())),
        ),
{
    lemma_payload_framing_round_trip(frame_bytes(frame), rest);
    lemma_payload_round_trip(frame);
}

/// Frames written one after the other are read back one after the other, and
/// after the last of them the stream has ended.
pub proof fn lemma_frames_in_sequence(first: FrameView, second: FrameView)
    requires
        frame_fits(first),
        frame_fits(second),
        frame_bytes(first).len() <= MAX_FRAME_LEN,
        frame_bytes(second).len() <= MAX_FRAME_LEN,
    ensures
        ({
            let stream = message_of(first) + message_of(second);
            let first_len = PREFIX_LEN + frame_bytes(first).len();
            let second_len = PREFIX_LEN + frame_bytes(second).len();
            &&& read_message(stream) == Ok::<Option<(FrameView, int)>, CodecError>(
                Some((first, first_len)),
            )
            &&& read_message(stream.skip(first_len)) == Ok::<
                Option<(FrameView, int)>,
                CodecError,
            >(Some((second, second_len)))
            &&& read_message(stream.skip(first_len + second_len)) == Ok::<
                Option<(FrameView, int)>,
                CodecError,
            >(None)
        }),
{
    lemma_payloads_in_sequence(frame_bytes(first), frame_bytes(second));
    lemma_payload_round_trip(first);
    lemma_payload_round_trip(second);
}


/// What taking one frame out of the bytes `buffer`, which have arrived so far,
/// gives, and the bytes that stay behind. Bytes that end inside a message stay
/// until the rest has arrived. A message whose payload is no frame is dropped
/// whole. After an oversized prefix nothing can be taken any more.
pub open spec fn take_frame(buffer: Seq<u8>) -> (Seq<u8>, Result<Option<FrameView>, CodecError>) {
    match read_message(buffer) {
        Ok(Some((frame, taken))) => (buffer.skip(taken), Ok(Some(frame))),
        Ok(None) => (buffer, Ok(None)),
        Err(CodecError::Truncated) => (buffer, Ok(None)),
        Err(CodecError::Malformed { next }) => (
            buffer.skip(next as int),
            Err(CodecError::Malformed { next }),
        ),
        Err(CodecError::Oversized) => (buffer, Err(CodecError::Oversized)),
    }
}

/// The receiving end of a transport that carries a stream of bytes: the bytes
/// are put in as they arrive, in pieces of any size, and the frames are taken
/// out in the order in which they were written.
pub struct FrameBuffer {
    bytes: Vec<u8>,
}

impl View for FrameBuffer {
    type V = Seq<u8>;

    closed spec fn view(&self) -> Seq<u8> {
        self.bytes@
    }
}

impl FrameBuffer {
    pub fn new() -> (buffer: FrameBuffer)
        ensures
            buffer@ == Seq::<u8>::empty(),
    {
        FrameBuffer { bytes: Vec::new() }
    }

    /// More bytes have arrived.
    pub fn push(&mut self, bytes: &[u8])
        ensures
            final(self)@ == old(self)@ + bytes@,
    {
        self.bytes.extend_from_slice(bytes);
    }

    /// Takes the next frame out, if all of its message has arrived.
    pub fn pop(&mut self) -> (r: Result<Option<Frame>, CodecError>)
        ensures
            final(self)@ == take_frame(old(self)@).0,
            match take_frame(old(self)@).1 {
                Ok(Some(frame)) => r matches Ok(Some(got)) && got@ == frame,
                Ok(None) => r == Ok::<Option<Frame>, CodecError>(None),
                Err(e) => r == Err::<Option<Frame>, CodecError>(e),
            },
    {
        assert(self.bytes@.skip(0) =~= self.bytes@);
        match read_frame(self.bytes.as_slice(), 0) {
            Ok(Some((frame, next))) => {
                let rest = self.bytes.split_off(next);
                assert(rest@ =~= old(self)@.skip(next as int));
                self.bytes = rest;
                Ok(Some(frame))
            },
            Ok(None) => Ok(None),
            Err(CodecError::Truncated) => Ok(None),
            Err(CodecError::Malformed { next }) => {
                let rest = self.bytes.split_off(next);
                assert(rest@ =~= old(self)@.skip(next as int));
                self.bytes = rest;
                Err(CodecError::Malformed { next })
            },
            Err(CodecError::Oversized) => Err(CodecError::Oversized),
        }
    }

    /// The stream has ended. That is in order where no bytes are left over;
    /// bytes that are left over are the beginning of a message that was cut
    /// off.
    pub fn finish(&self) -> (r: Result<(), CodecError>)
        ensures
            self@.len() == 0 ==> r is Ok,
            self@.len() > 0 ==> r == Err::<(), CodecError>(CodecError::Truncated),
    {
        if self.bytes.len() == 0 {
            Ok(())
        } else {
            Err(CodecError::Truncated)
        }
    }
}

/// A frame whose message has arrived is taken out as it was written, and what
/// has arrived after it stays behind.
pub proof fn lemma_buffered_round_trip(frame: FrameView, rest: Seq<u8>)
    requires
        frame_fits(frame),
        frame_bytes(frame).len() <= MAX_FRAME_LEN,
    ensures
        take_frame(message_of(frame) + rest) == (rest, Ok::<Option<FrameView>, CodecError>(Some(frame))),
{
    lemma_frame_round_trip(frame, rest);
    lemma_prefix_round_trip(frame_bytes(frame).len());
    assert((message_of(frame) + rest).skip(PREFIX_LEN + frame_bytes(frame).len()) =~= rest);
}

/// As long as only a part of a message has arrived, nothing is taken out and
/// nothing is lost.
pub proof fn lemma_partial_message_waits(frame: FrameView, arrived: int)
    requires
        frame_fits(frame),
        frame_bytes(frame).len() <= MAX_FRAME_LEN,
        0 <= arrived < message_of(frame).len(),
    ensures
        take_frame(message_of(frame).take(arrived)) == (
            message_of(frame).take(arrived),
            Ok::<Option<FrameView>, CodecError>(None),
        ),
{
    let whole = message_of(frame);
    let part = whole.take(arrived);
    lemma_prefix_round_trip(frame_bytes(frame).len());
    if arrived >= PREFIX_LEN {
        assert(prefix_value(part) == prefix_value(length_prefix(frame_bytes(frame).len())));
    }
}

} // verus!
