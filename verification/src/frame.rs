//! Byte-level framing of API messages.
//!
//! On the wire a framed message starts with a two-byte big-endian message
//! identifier followed by the message payload; over the socket transport a
//! sixteen-byte header carrying the payload length precedes each frame.
//! These helpers build and take apart those byte frames, and classify the
//! identifiers of incoming replies for the request/receive loops.

use vstd::prelude::*;
use vstd::slice::{slice_index_get, slice_subrange, slice_to_vec};

verus! {

/// Why a byte frame could not be taken apart.
#[derive(Debug, Clone, Copy, PartialEq, Eq, Structural)]
pub enum FrameError {
    /// The frame holds fewer bytes than the fixed part it must start with.
    TooShort,
}

/// The big-endian value of the first two bytes of a frame.
pub open spec fn spec_msg_id(data: Seq<u8>) -> u16
    recommends
        data.len() >= 2,
{
    (data[0] as u16 * 256 + data[1] as u16) as u16
}

/// Splits an encoded frame into its message identifier and its payload.
///
/// A frame shorter than three bytes (the two identifier bytes plus at least
/// one payload byte) is refused.
pub fn split_into_id_and_msg(data: &[u8]) -> (r: Result<(u16, Vec<u8>), FrameError>)
    ensures
        data@.len() < 3 ==> r == Err::<(u16, Vec<u8>), FrameError>(FrameError::TooShort),
        data@.len() >= 3 ==> ({
            &&& r matches Ok(p)
            &&& p.0 == spec_msg_id(data@)
            &&& p.1@ == data@.subrange(2, data@.len() as int)
        }),
{
    if data.len() < 3 {
        return Err(FrameError::TooShort);
    }
    let b0 = *slice_index_get(data, 0);
    let b1 = *slice_index_get(data, 1);
    let msg_id: u16 = (b0 as u16) * 256 + (b1 as u16);
    let payload = slice_to_vec(slice_subrange(data, 2, data.len()));
    Ok((msg_id, payload))
}

/// Builds the frame for a message: the identifier in two big-endian bytes,
/// then the payload unchanged.
pub fn prepend_msg_id(msg_id: u16, payload: &[u8]) -> (r: Vec<u8>)
    ensures
        r@ == seq![(msg_id / 256) as u8, (msg_id % 256) as u8] + payload@,
{
    let mut out: Vec<u8> = Vec::new();
    let hi: u8 = (msg_id >> 8u16) as u8;
    let lo: u8 = (msg_id & 0xffu16) as u8;
    assert((msg_id >> 8u16) as u8 == (msg_id / 256) as u8) by (bit_vector);
    assert((msg_id & 0xffu16) as u8 == (msg_id % 256) as u8) by (bit_vector);
    out.push(hi);
    out.push(lo);
    out.extend_from_slice(payload);
    assert(out@ =~= seq![(msg_id / 256) as u8, (msg_id % 256) as u8] + payload@);
    out
}

/// Framing and splitting are inverse: the frame built for an identifier and
/// a non-empty payload splits back into exactly that identifier and payload.
pub proof fn lemma_frame_roundtrip(msg_id: u16, payload: Seq<u8>)
    requires
        payload.len() >= 1,
    ensures
        ({
            let framed = seq![(msg_id / 256) as u8, (msg_id % 256) as u8] + payload;
            &&& framed.len() >= 3
            &&& spec_msg_id(framed) == msg_id
            &&& framed.subrange(2, framed.len() as int) == payload
        }),
{
    let framed = seq![(msg_id / 256) as u8, (msg_id % 256) as u8] + payload;
    assert(framed[0] == (msg_id / 256) as u8);
    assert(framed[1] == (msg_id % 256) as u8);
    assert(((msg_id / 256) as u8) as u16 * 256 + ((msg_id % 256) as u8) as u16 == msg_id) by (bit_vector);
    assert(framed.subrange(2, framed.len() as int) =~= payload);
}

/// What the receive loop does with one incoming message.
#[derive(Debug, Clone, Copy, PartialEq, Eq, Structural)]
pub enum ReplyAction {
    /// A control-ping reply arrived: the bulk stream is complete.
    Finish,
    /// The awaited reply identifier arrived: decode and keep it.
    Deliver,
    /// Some other message arrived: skip it and keep reading.
    Skip,
}

/// Decides one step of the bulk receive loop from the incoming message
/// identifier: a control-ping reply finishes the stream, the awaited
/// reply is delivered, anything else is skipped.  The finish check comes
/// first, so it wins if the two identifiers coincide.
pub fn classify_reply(msg_id: u16, reply_id: u16, ping_reply_id: u16) -> (r: ReplyAction)
    ensures
        msg_id == ping_reply_id ==> r == ReplyAction::Finish,
        msg_id != ping_reply_id && msg_id == reply_id ==> r == ReplyAction::Deliver,
        msg_id != ping_reply_id && msg_id != reply_id ==> r == ReplyAction::Skip,
{
    if msg_id == ping_reply_id {
        ReplyAction::Finish
    } else if msg_id == reply_id {
        ReplyAction::Deliver
    } else {
        ReplyAction::Skip
    }
}

/// The number of bytes in the socket transport's fixed message header.
pub open spec fn sock_header_len() -> int {
    16
}

/// The sixteen header bytes that precede a frame on the socket transport:
/// an eight-byte queue word of zeros, the payload length in four
/// big-endian bytes, and a four-byte collection mark of zeros.
pub open spec fn spec_sock_header(msglen: u32) -> Seq<u8> {
    seq![
        0u8, 0u8, 0u8, 0u8, 0u8, 0u8, 0u8, 0u8,
        (msglen / 0x1000000) as u8,
        ((msglen / 0x10000) % 256) as u8,
        ((msglen / 256) % 256) as u8,
        (msglen % 256) as u8,
        0u8, 0u8, 0u8, 0u8,
    ]
}

/// Builds the socket header for a payload of the given length.
pub fn encode_sock_header(msglen: u32) -> (r: Vec<u8>)
    ensures
        r@ == spec_sock_header(msglen),
        r@.len() == sock_header_len(),
{
    let mut out: Vec<u8> = Vec::new();
    let mut i: usize = 0;
    while i < 8
        invariant
            0 <= i <= 8,
            out@.len() == i,
            forall|j: int| 0 <= j < i ==> out@[j] == 0u8,
        decreases 8 - i,
    {
        out.push(0u8);
        i += 1;
    }
    out.push((msglen >> 24u32) as u8);
    out.push(((msglen >> 16u32) & 0xff) as u8);
    out.push(((msglen >> 8u32) & 0xff) as u8);
    out.push((msglen & 0xff) as u8);
    assert((msglen >> 24u32) as u8 == (msglen / 0x1000000) as u8) by (bit_vector);
    assert(((msglen >> 16u32) & 0xff) as u8 == ((msglen / 0x10000) % 256) as u8) by (bit_vector);
    assert(((msglen >> 8u32) & 0xff) as u8 == ((msglen / 256) % 256) as u8) by (bit_vector);
    assert((msglen & 0xff) as u8 == (msglen % 256) as u8) by (bit_vector);
    out.push(0u8);
    out.push(0u8);
    out.push(0u8);
    out.push(0u8);
    assert(out@ =~= spec_sock_header(msglen));
    out
}

/// Reads the payload length out of a socket header; a buffer shorter than
/// the header is refused.
pub fn parse_sock_header(data: &[u8]) -> (r: Result<u32, FrameError>)
    ensures
        data@.len() < sock_header_len() ==> r == Err::<u32, FrameError>(FrameError::TooShort),
        data@.len() >= sock_header_len() ==> r == Ok::<u32, FrameError>(
            ((data@[8] as u32) * 0x1000000 + (data@[9] as u32) * 0x10000 + (data@[10] as u32)
                * 256 + (data@[11] as u32)) as u32,
        ),
{
    if data.len() < 16 {
        return Err(FrameError::TooShort);
    }
    let b8 = *slice_index_get(data, 8);
    let b9 = *slice_index_get(data, 9);
    let b10 = *slice_index_get(data, 10);
    let b11 = *slice_index_get(data, 11);
    let v: u32 = (b8 as u32) * 0x1000000 + (b9 as u32) * 0x10000 + (b10 as u32) * 256 + (
    b11 as u32);
    Ok(v)
}

/// Header framing and parsing are inverse: the header built for a length
/// parses back to exactly that length.
pub proof fn lemma_sock_header_roundtrip(msglen: u32)
    ensures
        ({
            let h = spec_sock_header(msglen);
            &&& h.len() == sock_header_len()
            &&& (h[8] as u32) * 0x1000000 + (h[9] as u32) * 0x10000 + (h[10] as u32) * 256 + (
            h[11] as u32) == msglen
        }),
{
    assert(((msglen / 0x1000000) as u8) as u32 * 0x1000000 + (((msglen / 0x10000) % 256) as u8)
        as u32 * 0x10000 + (((msglen / 256) % 256) as u8) as u32 * 256 + ((msglen % 256) as u8)
        as u32 == msglen) by (bit_vector);
}

} // verus!
