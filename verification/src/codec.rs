//! Wire codec for the framed protocol.
//!
//! A steady-state frame is a 9-byte header followed by the payload: a 4-byte
//! big-endian payload length, a 1-byte message-type tag, and a 4-byte
//! big-endian correlation id.  A handshake frame is a 4-byte big-endian
//! length followed by that many payload bytes.

use vstd::prelude::*;

verus! {

/// Number of bytes in a steady-state frame header.
pub const FRAME_HEADER_LEN: usize = 9;

/// The big-endian bytes of a 32-bit value, most significant byte first.
pub open spec fn be32_bytes(x: u32) -> Seq<u8> {
    seq![(x >> 24) as u8, (x >> 16) as u8, (x >> 8) as u8, x as u8]
}

/// The 32-bit value that the first four bytes of `s` denote, big endian.
pub open spec fn be32_of(s: Seq<u8>) -> u32
    recommends
        s.len() >= 4,
{
    (((s[0] as u32) << 24) | ((s[1] as u32) << 16) | ((s[2] as u32) << 8) | (s[3] as u32)) as u32
}

/// Reading back the four big-endian bytes of a value yields the value.
pub proof fn lemma_be32_round_trip(x: u32)
    ensures
        be32_of(be32_bytes(x)) == x,
{
    assert((((((x >> 24) as u8) as u32) << 24) | ((((x >> 16) as u8) as u32) << 16) | ((((x >> 8)
        as u8) as u32) << 8) | ((x as u8) as u32)) == x) by (bit_vector);
}

/// The full byte image of one frame: header then payload.
pub open spec fn frame_bytes(tag: u8, task_id: u32, payload: Seq<u8>) -> Seq<u8> {
    be32_bytes(payload.len() as u32) + seq![tag] + be32_bytes(task_id) + payload
}

/// The payload length a buffered byte sequence declares in its header.
pub open spec fn parsed_payload_len(s: Seq<u8>) -> u32
    recommends
        s.len() >= FRAME_HEADER_LEN,
{
    be32_of(s)
}

/// The message-type tag of the header at the front of `s`.
pub open spec fn parsed_tag(s: Seq<u8>) -> u8
    recommends
        s.len() >= FRAME_HEADER_LEN,
{
    s[4]
}

/// The correlation id of the header at the front of `s`.
pub open spec fn parsed_task_id(s: Seq<u8>) -> u32
    recommends
        s.len() >= FRAME_HEADER_LEN,
{
    be32_of(s.skip(5))
}

/// Round trip of the frame codec: a frame assembled from a tag, a
/// correlation id and a payload, followed by any trailing bytes, parses back
/// to exactly that tag, id and payload, and the trailing bytes are untouched.
pub proof fn lemma_frame_round_trip(tag: u8, task_id: u32, payload: Seq<u8>, rest: Seq<u8>)
    requires
        payload.len() <= u32::MAX,
    ensures
        ({
            let s = frame_bytes(tag, task_id, payload) + rest;
            &&& s.len() == FRAME_HEADER_LEN + payload.len() + rest.len()
            &&& parsed_payload_len(s) == payload.len()
            &&& parsed_tag(s) == tag
            &&& parsed_task_id(s) == task_id
            &&& s.subrange(FRAME_HEADER_LEN as int, FRAME_HEADER_LEN + payload.len() as int)
                == payload
            &&& s.skip(FRAME_HEADER_LEN + payload.len() as int) == rest
        }),
{
    let s = frame_bytes(tag, task_id, payload) + rest;
    let n = payload.len() as u32;
    assert(s =~= be32_bytes(n) + seq![tag] + be32_bytes(task_id) + payload + rest);
    assert(seq![s[0], s[1], s[2], s[3]] =~= be32_bytes(n));
    lemma_be32_round_trip(n);
    assert(parsed_payload_len(s) == be32_of(be32_bytes(n)));
    assert(s.skip(5) =~= be32_bytes(task_id) + payload + rest);
    assert(seq![s.skip(5)[0], s.skip(5)[1], s.skip(5)[2], s.skip(5)[3]] =~= be32_bytes(task_id));
    lemma_be32_round_trip(task_id);
    assert(s.subrange(FRAME_HEADER_LEN as int, FRAME_HEADER_LEN + payload.len() as int)
        =~= payload);
    assert(s.skip(FRAME_HEADER_LEN + payload.len() as int) =~= rest);
}

/// Appends the four big-endian bytes of `x` to `out`.
pub fn push_be32(out: &mut Vec<u8>, x: u32)
    ensures
        final(out)@ == old(out)@ + be32_bytes(x),
{
    out.push((x >> 24) as u8);
    out.push((x >> 16) as u8);
    out.push((x >> 8) as u8);
    out.push(x as u8);
    assert(out@ =~= old(out)@ + be32_bytes(x));
}

/// Encodes one frame: the 9-byte header, then the payload bytes.
pub fn encode_frame(tag: u8, task_id: u32, payload: &Vec<u8>) -> (r: Vec<u8>)
    requires
        payload@.len() <= u32::MAX,
    ensures
        r@ == frame_bytes(tag, task_id, payload@),
{
    let mut out: Vec<u8> = Vec::new();
    push_be32(&mut out, payload.len() as u32);
    out.push(tag);
    push_be32(&mut out, task_id);
    out.extend_from_slice(payload.as_slice());
    assert(out@ =~= frame_bytes(tag, task_id, payload@));
    out
}

} // verus!
