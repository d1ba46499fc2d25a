//! Record codec: a bijective mapping between an opaque payload and its framed
//! binary form, `header(len(payload)) || payload`, where the header is the
//! payload length as a fixed-width (4-byte) little-endian unsigned integer.

use vstd::prelude::*;
use vstd::bytes::{
    spec_u32_from_le_bytes, spec_u32_to_le_bytes, u32_from_le_bytes, u32_to_le_bytes,
    lemma_auto_spec_u32_to_from_le_bytes,
};
use vstd::slice::{slice_subrange, slice_to_vec};

verus! {

/// Width in bytes of the length header that precedes every payload.
pub const HEADER_WIDTH: usize = 4;

/// Why an encode or decode failed.
#[derive(Clone, Copy, Debug, PartialEq, Eq, Structural)]
pub enum CodecError {
    /// The payload length does not fit in the fixed-width header.
    PayloadTooLarge,
    /// Fewer than `HEADER_WIDTH` bytes were available to read a header from.
    TruncatedHeader,
    /// The header declared more payload bytes than the buffer holds.
    TruncatedPayload,
}

/// The framed form of `payload`: its length as a 4-byte little-endian
/// integer, followed by the payload bytes themselves.
pub open spec fn spec_encode(payload: Seq<u8>) -> Seq<u8>
    recommends
        payload.len() <= u32::MAX,
{
    spec_u32_to_le_bytes(payload.len() as u32) + payload
}

/// The payload length declared by the header at the front of `buffer`.
pub open spec fn spec_header_len(buffer: Seq<u8>) -> int
    recommends
        buffer.len() >= HEADER_WIDTH,
{
    spec_u32_from_le_bytes(buffer.subrange(0, HEADER_WIDTH as int)) as int
}

/// What decoding the front of `buffer` yields: the payload together with the
/// number of bytes consumed, or the error that the buffer forces.
pub open spec fn spec_decode(buffer: Seq<u8>) -> Result<(Seq<u8>, int), CodecError> {
    if buffer.len() < HEADER_WIDTH {
        Err(CodecError::TruncatedHeader)
    } else if buffer.len() - HEADER_WIDTH < spec_header_len(buffer) {
        Err(CodecError::TruncatedPayload)
    } else {
        let n = spec_header_len(buffer);
        Ok((buffer.subrange(HEADER_WIDTH as int, HEADER_WIDTH + n), HEADER_WIDTH + n))
    }
}

/// Frames `payload` as `header(len) || payload`.
///
/// Succeeds exactly when the payload length is representable in the 4-byte
/// header, i.e. is at most `u32::MAX`; otherwise nothing fits the wire
/// contract and `PayloadTooLarge` is returned.
pub fn encode(payload: &[u8]) -> (r: Result<Vec<u8>, CodecError>)
    ensures
        payload@.len() <= u32::MAX ==> (r matches Ok(framed) && framed@ == spec_encode(payload@)),
        payload@.len() > u32::MAX ==> r == Err::<Vec<u8>, CodecError>(CodecError::PayloadTooLarge),
{
    if payload.len() > u32::MAX as usize {
        return Err(CodecError::PayloadTooLarge);
    }
    let mut framed = u32_to_le_bytes(payload.len() as u32);
    let mut tail = slice_to_vec(payload);
    framed.append(&mut tail);
    Ok(framed)
}

/// Reads one framed record from the front of `buffer`: the header names the
/// payload length, and exactly that many payload bytes must follow.
///
/// Returns the payload and the total number of bytes consumed
/// (`HEADER_WIDTH + length`), `TruncatedHeader` when the buffer is shorter
/// than a header, and `TruncatedPayload` when the declared length exceeds
/// what remains after the header.
pub fn decode(buffer: &[u8]) -> (r: Result<(Vec<u8>, usize), CodecError>)
    ensures
        match r {
            Ok((payload, consumed)) => {
                &&& spec_decode(buffer@) matches Ok(d)
                &&& payload@ == d.0
                &&& consumed as int == d.1
            },
            Err(e) => spec_decode(buffer@) == Err::<(Seq<u8>, int), CodecError>(e),
        },
{
    if buffer.len() < HEADER_WIDTH {
        return Err(CodecError::TruncatedHeader);
    }
    let header = slice_subrange(buffer, 0, HEADER_WIDTH);
    let declared = u32_from_le_bytes(header) as usize;
    if buffer.len() - HEADER_WIDTH < declared {
        return Err(CodecError::TruncatedPayload);
    }
    let payload = slice_to_vec(slice_subrange(buffer, HEADER_WIDTH, HEADER_WIDTH + declared));
    Ok((payload, HEADER_WIDTH + declared))
}

/// Round trip: every payload whose length the header can represent decodes
/// from its own encoding back to itself, consuming the whole encoding.
pub proof fn lemma_encode_decode_round_trip(payload: Seq<u8>)
    requires
        payload.len() <= u32::MAX,
    ensures
        spec_decode(spec_encode(payload))
            == Ok::<(Seq<u8>, int), CodecError>((payload, spec_encode(payload).len() as int)),
{
    lemma_auto_spec_u32_to_from_le_bytes();
    let framed = spec_encode(payload);
    assert(framed.subrange(0, HEADER_WIDTH as int) =~= spec_u32_to_le_bytes(payload.len() as u32));
    assert(spec_header_len(framed) == payload.len());
    assert(framed.subrange(HEADER_WIDTH as int, HEADER_WIDTH + payload.len()) =~= payload);
}

} // verus!
