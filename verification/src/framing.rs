//! The wire encoding of the fabric: length-delimited frames whose payload is
//! a self-describing event record.
//!
//! A frame is a little-endian 32-bit payload length followed by that many
//! payload bytes. On the fabric the payload is an event record: the topic's
//! UTF-8 byte length (u32), the topic bytes, the creation instant (u64,
//! two's complement of the signed microsecond count), the data length (u32)
//! and the data bytes. The bridge uses the same envelope around plain text
//! payloads. Both directions of the codec are given exact contracts, and the
//! round-trip laws at the end of this module state that a well-formed frame
//! or record survives a decode followed by an encode byte-for-byte.

use vstd::prelude::*;
use vstd::bytes::*;
use vstd::slice::{slice_subrange, slice_to_vec};
use vstd::utf8::{decode_utf8, encode_utf8, valid_utf8};
use vstd::utf8::{encode_utf8_decode_utf8, encode_utf8_valid_utf8, decode_utf8_encode_utf8};

use crate::Event;
use crate::ext::string_from_utf8;

verus! {

/// Ceiling on the payload length of one frame (64 MiB). A peer that
/// announces a longer frame is terminated with a recoverable error.
pub const MAX_PAYLOAD_LEN: usize = 64 * 1024 * 1024;

// ---------------------------------------------------------------------------
// The frame envelope
// ---------------------------------------------------------------------------

/// The bytes of one frame around the given payload.
pub open spec fn spec_frame_bytes(payload: Seq<u8>) -> Seq<u8> {
    spec_u32_to_le_bytes(payload.len() as u32) + payload
}

/// The payload length a buffer announces in its first four bytes.
pub open spec fn spec_frame_len(buf: Seq<u8>) -> int
    recommends
        buf.len() >= 4,
{
    spec_u32_from_le_bytes(buf.subrange(0, 4)) as int
}

/// The buffer does not yet hold a whole frame.
pub open spec fn frame_incomplete(buf: Seq<u8>) -> bool {
    buf.len() < 4 || (spec_frame_len(buf) <= MAX_PAYLOAD_LEN && buf.len() < 4 + spec_frame_len(
        buf,
    ))
}

/// The buffer announces a payload longer than the ceiling.
pub open spec fn frame_too_long(buf: Seq<u8>) -> bool {
    buf.len() >= 4 && spec_frame_len(buf) > MAX_PAYLOAD_LEN
}

/// What the head of a byte stream holds.
pub enum FrameParse {
    /// More bytes are needed before a whole frame is present.
    Incomplete,
    /// The announced payload length exceeds [`MAX_PAYLOAD_LEN`]; the stream
    /// must be terminated (a recoverable, per-peer error).
    TooLong,
    /// One whole frame: its payload, and how many bytes of the buffer the
    /// frame occupied.
    Complete(Vec<u8>, usize),
}

/// Encodes one frame around the payload; refuses a payload over the ceiling.
pub fn encode_frame(payload: &[u8]) -> (r: Option<Vec<u8>>)
    ensures
        r is Some <==> payload@.len() <= MAX_PAYLOAD_LEN,
        r matches Some(v) ==> v@ == spec_frame_bytes(payload@),
{
    if payload.len() > MAX_PAYLOAD_LEN {
        return None;
    }
    let mut out = u32_to_le_bytes(payload.len() as u32);
    out.extend_from_slice(payload);
    Some(out)
}

/// Decodes the frame at the head of `buf`, if one is wholly there. The
/// `Complete` contract carries the round trip: the consumed prefix of the
/// buffer is exactly the frame around the returned payload.
pub fn decode_frame(buf: &[u8]) -> (r: FrameParse)
    ensures
        r is Incomplete <==> frame_incomplete(buf@),
        r is TooLong <==> frame_too_long(buf@),
        r matches FrameParse::Complete(p, c) ==> {
            &&& c == 4 + spec_frame_len(buf@)
            &&& c <= buf@.len()
            &&& p@ == buf@.subrange(4, c as int)
            &&& buf@.subrange(0, c as int) == spec_frame_bytes(p@)
        },
{
    if buf.len() < 4 {
        return FrameParse::Incomplete;
    }
    let header = slice_subrange(buf, 0, 4);
    let n = u32_from_le_bytes(header) as usize;
    if n > MAX_PAYLOAD_LEN {
        return FrameParse::TooLong;
    }
    if buf.len() - 4 < n {
        return FrameParse::Incomplete;
    }
    let payload = slice_to_vec(slice_subrange(buf, 4, 4 + n));
    proof {
        lemma_auto_spec_u32_to_from_le_bytes();
        assert(buf@.subrange(0, 4 + n as int) == spec_frame_bytes(
            buf@.subrange(4, 4 + n as int),
        )) by {
            assert(spec_frame_bytes(buf@.subrange(4, 4 + n as int)) =~= buf@.subrange(
                0,
                4 + n as int,
            ));
        }
    }
    FrameParse::Complete(payload, 4 + n)
}

// ---------------------------------------------------------------------------
// The event record
// ---------------------------------------------------------------------------

/// The record bytes of an event with the given topic, instant and data.
pub open spec fn spec_event_bytes(topic: Seq<char>, timestamp: i64, data: Seq<u8>) -> Seq<u8> {
    let tb = encode_utf8(topic);
    spec_u32_to_le_bytes(tb.len() as u32) + tb + spec_u64_to_le_bytes(timestamp as u64)
        + spec_u32_to_le_bytes(data.len() as u32) + data
}

/// Whether an event can be carried in one frame: a non-empty topic, and a
/// record that fits under the payload ceiling.
pub open spec fn event_encodable(topic: Seq<char>, data: Seq<u8>) -> bool {
    &&& 0 < topic.len()
    &&& 16 + encode_utf8(topic).len() + data.len() <= MAX_PAYLOAD_LEN
}

/// The event record a payload holds, if it is well formed: the announced
/// lengths add up to the whole payload, the topic bytes are valid UTF-8, and
/// the topic is non-empty.
pub open spec fn spec_parse_event(bytes: Seq<u8>) -> Option<(Seq<char>, i64, Seq<u8>)> {
    if bytes.len() < 16 || bytes.len() > MAX_PAYLOAD_LEN {
        None
    } else {
        let tl = spec_u32_from_le_bytes(bytes.subrange(0, 4)) as int;
        if tl == 0 || bytes.len() < 16 + tl {
            None
        } else {
            let tb = bytes.subrange(4, 4 + tl);
            if !valid_utf8(tb) {
                None
            } else {
                let ts = spec_u64_from_le_bytes(bytes.subrange(4 + tl, 12 + tl)) as i64;
                let dl = spec_u32_from_le_bytes(bytes.subrange(12 + tl, 16 + tl)) as int;
                if bytes.len() != 16 + tl + dl {
                    None
                } else {
                    Some((decode_utf8(tb), ts, bytes.subrange(16 + tl, bytes.len() as int)))
                }
            }
        }
    }
}

/// Encodes an event as one record payload; refuses an event whose record
/// would not fit in a frame, or whose topic is empty.
pub fn encode_event(e: &Event) -> (r: Option<Vec<u8>>)
    ensures
        r is Some <==> event_encodable(e.topic@, e.data@),
        r matches Some(v) ==> v@ == spec_event_bytes(e.topic@, e.timestamp, e.data@),
{
    let tb: &[u8] = e.topic.as_str().as_bytes();
    if tb.len() == 0 {
        proof {
            lemma_encode_utf8_len(e.topic@);
        }
        return None;
    }
    if tb.len() > MAX_PAYLOAD_LEN - 16 || e.data.len() > MAX_PAYLOAD_LEN - 16 - tb.len() {
        return None;
    }
    proof {
        lemma_encode_utf8_len(e.topic@);
    }
    let mut out = u32_to_le_bytes(tb.len() as u32);
    out.extend_from_slice(tb);
    let mut ts_bytes = u64_to_le_bytes(#[verifier::truncate] (e.timestamp as u64));
    out.append(&mut ts_bytes);
    let mut dl_bytes = u32_to_le_bytes(e.data.len() as u32);
    out.append(&mut dl_bytes);
    out.extend_from_slice(e.data.as_slice());
    proof {
        assert(out@ =~= spec_event_bytes(e.topic@, e.timestamp, e.data@));
    }
    Some(out)
}

/// Decodes one record payload back into an event.
pub fn decode_event(payload: &[u8]) -> (r: Option<Event>)
    ensures
        r is Some <==> spec_parse_event(payload@) is Some,
        r matches Some(e) ==> spec_parse_event(payload@) == Some((e.topic@, e.timestamp, e.data@)),
{
    if payload.len() < 16 || payload.len() > MAX_PAYLOAD_LEN {
        return None;
    }
    let tl = u32_from_le_bytes(slice_subrange(payload, 0, 4)) as usize;
    if tl == 0 || payload.len() - 16 < tl {
        return None;
    }
    let topic_bytes = slice_to_vec(slice_subrange(payload, 4, 4 + tl));
    let topic = match string_from_utf8(topic_bytes) {
        Some(t) => t,
        None => {
            return None;
        },
    };
    proof {
        encode_utf8_decode_utf8(topic@);
    }
    let ts = #[verifier::truncate] (u64_from_le_bytes(
        slice_subrange(payload, 4 + tl, 12 + tl),
    ) as i64);
    let dl = u32_from_le_bytes(slice_subrange(payload, 12 + tl, 16 + tl)) as usize;
    if payload.len() - 16 - tl != dl {
        return None;
    }
    let data = slice_to_vec(slice_subrange(payload, 16 + tl, payload.len()));
    Some(Event { topic, timestamp: ts, data })
}

// ---------------------------------------------------------------------------
// Round-trip laws
// ---------------------------------------------------------------------------

/// The UTF-8 encoding of a character sequence is empty exactly when the
/// sequence is, and at least as long as the sequence.
proof fn lemma_encode_utf8_len(chars: Seq<char>)
    ensures
        encode_utf8(chars).len() >= chars.len(),
        encode_utf8(chars).len() == 0 <==> chars.len() == 0,
    decreases chars.len(),
{
    if chars.len() > 0 {
        lemma_encode_utf8_len(chars.drop_first());
    }
}

/// Law (record round trip, decode after encode): an encodable event record
/// parses back to exactly its topic, instant and data.
pub proof fn lemma_event_decode_of_encode(topic: Seq<char>, timestamp: i64, data: Seq<u8>)
    requires
        event_encodable(topic, data),
    ensures
        spec_parse_event(spec_event_bytes(topic, timestamp, data)) == Some(
            (topic, timestamp, data),
        ),
{
    lemma_auto_spec_u32_to_from_le_bytes();
    lemma_auto_spec_u64_to_from_le_bytes();
    lemma_encode_utf8_len(topic);
    encode_utf8_valid_utf8(topic);
    encode_utf8_decode_utf8(topic);
    let tb = encode_utf8(topic);
    let tl = tb.len() as int;
    let bytes = spec_event_bytes(topic, timestamp, data);
    assert(bytes.len() == 16 + tl + data.len());
    assert(bytes.subrange(0, 4) =~= spec_u32_to_le_bytes(tb.len() as u32));
    assert(bytes.subrange(4, 4 + tl) =~= tb);
    assert(bytes.subrange(4 + tl, 12 + tl) =~= spec_u64_to_le_bytes(timestamp as u64));
    assert(bytes.subrange(12 + tl, 16 + tl) =~= spec_u32_to_le_bytes(data.len() as u32));
    assert(bytes.subrange(16 + tl, bytes.len() as int) =~= data);
    assert(spec_u32_from_le_bytes(bytes.subrange(0, 4)) as int == tl);
    assert((spec_u64_from_le_bytes(bytes.subrange(4 + tl, 12 + tl)) as i64) == timestamp) by {
        assert(((timestamp as u64) as i64) == timestamp) by (bit_vector);
    }
}

/// Law (record round trip, encode after decode): a well-formed record
/// payload re-encodes to itself byte-for-byte.
pub proof fn lemma_event_encode_of_decode(bytes: Seq<u8>)
    requires
        spec_parse_event(bytes) is Some,
    ensures
        ({
            let (topic, timestamp, data) = spec_parse_event(bytes)->0;
            &&& spec_event_bytes(topic, timestamp, data) == bytes
            &&& event_encodable(topic, data)
        }),
{
    lemma_auto_spec_u32_to_from_le_bytes();
    lemma_auto_spec_u64_to_from_le_bytes();
    let tl = spec_u32_from_le_bytes(bytes.subrange(0, 4)) as int;
    let tb = bytes.subrange(4, 4 + tl);
    let (topic, timestamp, data) = spec_parse_event(bytes)->0;
    decode_utf8_encode_utf8(tb);
    assert(encode_utf8(topic) == tb);
    lemma_encode_utf8_len(topic);
    let ts64 = spec_u64_from_le_bytes(bytes.subrange(4 + tl, 12 + tl));
    assert((timestamp as u64) == ts64) by {
        assert(((ts64 as i64) as u64) == ts64) by (bit_vector);
    }
    assert(data.len() == bytes.len() - 16 - tl);
    assert(spec_event_bytes(topic, timestamp, data) =~= bytes);
}

/// Law (frame round trip): a frame around any payload under the ceiling,
/// followed by any tail of the stream, decodes to exactly that payload,
/// consuming exactly the frame.
pub proof fn lemma_frame_round_trip(payload: Seq<u8>, rest: Seq<u8>)
    requires
        payload.len() <= MAX_PAYLOAD_LEN,
    ensures
        ({
            let buf = spec_frame_bytes(payload) + rest;
            &&& !frame_incomplete(buf)
            &&& !frame_too_long(buf)
            &&& spec_frame_len(buf) == payload.len()
            &&& buf.subrange(4, 4 + payload.len() as int) == payload
        }),
{
    lemma_auto_spec_u32_to_from_le_bytes();
    let buf = spec_frame_bytes(payload) + rest;
    assert(buf.subrange(0, 4) =~= spec_u32_to_le_bytes(payload.len() as u32));
    assert(buf.subrange(4, 4 + payload.len() as int) =~= payload);
}

} // verus!
