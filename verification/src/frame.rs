//! Length-prefixed framing for the stream protocol.
//!
//! One frame is an 8-byte little-endian unsigned length followed by that
//! many payload bytes. The receiving side reads exactly `length` bytes per
//! frame; [`lemma_frame_round_trip`] shows that parsing a frame out of a
//! stream recovers exactly the payload that was framed.

use vstd::prelude::*;
use vstd::bytes::spec_u64_to_le_bytes;
use vstd::bytes::spec_u64_from_le_bytes;
use vstd::bytes::lemma_auto_spec_u64_to_from_le_bytes;
use vstd::bytes::u64_to_le_bytes;
use vstd::bytes::u64_from_le_bytes;
use vstd::slice::slice_subrange;
use vstd::slice::slice_to_vec;

verus! {

/// The frame of a payload: its length, little-endian, then its bytes.
pub open spec fn spec_frame(payload: Seq<u8>) -> Seq<u8>
    recommends
        payload.len() <= u64::MAX,
{
    spec_u64_to_le_bytes(payload.len() as u64) + payload
}

/// Parse one frame at the front of `bs`: the payload and the number of
/// bytes consumed. The length must be present, fit in `usize`, and be
/// covered by the input.
pub open spec fn spec_parse_frame(bs: Seq<u8>) -> Option<(Seq<u8>, int)> {
    if bs.len() < 8 {
        Option::None
    } else {
        let n = spec_u64_from_le_bytes(bs.take(8)) as int;
        if n <= usize::MAX && 8 + n <= bs.len() {
            Some((bs.subrange(8, 8 + n), 8 + n))
        } else {
            Option::None
        }
    }
}

/// Frame a payload: 8 length bytes, little-endian, then the payload.
pub fn encode_frame(payload: &Vec<u8>) -> (r: Vec<u8>)
    ensures
        r@ == spec_frame(payload@),
{
    let n = payload.len();
    let mut out = u64_to_le_bytes(n as u64);
    out.extend_from_slice(payload.as_slice());
    out
}

/// Parse one frame at position `pos` of `buf`: the payload and the
/// position after it, exactly as [`spec_parse_frame`] prescribes.
pub fn decode_frame(buf: &Vec<u8>, pos: usize) -> (r: Option<(Vec<u8>, usize)>)
    requires
        pos <= buf@.len(),
    ensures
        match spec_parse_frame(buf@.skip(pos as int)) {
            Option::None => r is None,
            Option::Some((payload, used)) => r matches Some((p, next)) && p@ == payload && next
                == pos + used,
        },
{
    let ghost suffix = buf@.skip(pos as int);
    if buf.len() - pos < 8 {
        return Option::None;
    }
    let header = slice_subrange(buf.as_slice(), pos, pos + 8);
    proof {
        assert(header@ =~= suffix.take(8));
    }
    let n64 = u64_from_le_bytes(header);
    if n64 > usize::MAX as u64 {
        return Option::None;
    }
    let n = n64 as usize;
    if n > buf.len() - (pos + 8) {
        proof {
            assert(8 + n64 as int > suffix.len());
        }
        return Option::None;
    }
    let payload = slice_to_vec(slice_subrange(buf.as_slice(), pos + 8, pos + 8 + n));
    proof {
        assert(payload@ =~= suffix.subrange(8, 8 + n64 as int));
    }
    Option::Some((payload, pos + 8 + n))
}

/// Framing round trip: a framed payload at the front of a stream parses
/// back to exactly that payload, whatever follows it.
pub proof fn lemma_frame_round_trip(payload: Seq<u8>, rest: Seq<u8>)
    requires
        payload.len() <= usize::MAX,
    ensures
        spec_parse_frame(spec_frame(payload) + rest) == Some(
            (payload, 8 + payload.len() as int),
        ),
{
    lemma_auto_spec_u64_to_from_le_bytes();
    let header = spec_u64_to_le_bytes(payload.len() as u64);
    let bs = spec_frame(payload) + rest;
    assert(bs =~= header + payload + rest);
    assert(bs.take(8) =~= header);
    assert(spec_u64_from_le_bytes(bs.take(8)) == payload.len() as u64);
    assert(bs.subrange(8, 8 + payload.len() as int) =~= payload);
}

} // verus!
