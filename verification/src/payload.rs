//! The fixed binary layouts that a marker carries in its data push.

use vstd::prelude::*;
use vstd::slice::slice_to_vec;
use crate::types::CoreLanePatterns;

verus! {

/// The shortest payload that holds a burn: a 4-byte prefix, a 4-byte chain
/// id and a 20-byte address.
pub const BURN_PAYLOAD_LEN: usize = 28;

/// The shortest payload that holds a fill marker.
pub const FILL_PAYLOAD_LEN: usize = 4;

/// The amount, in satoshis, that a burn is taken to spend for each input.
pub const BURN_AMOUNT_PER_INPUT: u64 = 100000;

/// Why a payload is not of the layout that was tried.
#[derive(Debug, Clone, Copy, PartialEq, Eq, Structural)]
pub enum DecodeError {
    /// The payload is shorter than the layout.
    TooShort,
    /// The payload does not start with the marker prefix.
    PrefixMismatch,
}

/// What a burn marker holds.
#[derive(Debug, Clone, Copy, PartialEq, Eq)]
pub struct BurnPayload {
    /// The amount burnt, in satoshis.
    pub amount: u64,
    /// The chain that the burn is for.
    pub chain_id: u32,
    /// The address that the burn is for.
    pub destination_address: [u8; 20],
}

/// What a data-availability marker holds: the whole payload, prefix
/// included, uninterpreted.
#[derive(Debug, Clone, PartialEq, Eq)]
pub struct DAPayload {
    pub raw_data: Vec<u8>,
}

/// What a fill marker holds: the whole payload, prefix included,
/// uninterpreted.
#[derive(Debug, Clone, PartialEq, Eq)]
pub struct FillPayload {
    pub raw_data: Vec<u8>,
}

/// The number that four bytes give, most significant byte first.
pub open spec fn be_u32_spec(bytes: Seq<u8>) -> int {
    bytes[0] * 0x100_0000 + bytes[1] * 0x1_0000 + bytes[2] * 0x100 + bytes[3]
}

/// The amount recorded for a burn with `input_count` inputs: a fixed amount
/// for each input, held at the largest `u64` where the product is above it.
pub open spec fn burn_amount_spec(input_count: u64) -> int {
    if input_count * BURN_AMOUNT_PER_INPUT <= u64::MAX {
        input_count * BURN_AMOUNT_PER_INPUT
    } else {
        u64::MAX as int
    }
}

/// Whether `payload` has the layout of a burn under `prefix`.
pub open spec fn is_burn_payload(payload: Seq<u8>, prefix: Seq<u8>) -> bool {
    payload.len() >= BURN_PAYLOAD_LEN && prefix.is_prefix_of(payload)
}

/// Whether `payload` is a data-availability posting under `prefix`.
pub open spec fn is_da_payload(payload: Seq<u8>, prefix: Seq<u8>) -> bool {
    prefix.is_prefix_of(payload)
}

/// Whether `payload` is a fill marker under `prefix`.
pub open spec fn is_fill_payload(payload: Seq<u8>, prefix: Seq<u8>) -> bool {
    payload.len() >= FILL_PAYLOAD_LEN && prefix.is_prefix_of(payload)
}

/// Whether `payload` begins with the bytes of `prefix`.
pub fn starts_with(payload: &[u8], prefix: &[u8]) -> (found: bool)
    ensures
        found == prefix@.is_prefix_of(payload@),
{
    if prefix.len() > payload.len() {
        return false;
    }
    let mut i: usize = 0;
    while i < prefix.len()
        invariant
            i <= prefix@.len() <= payload@.len(),
            forall|k: int| 0 <= k < i ==> prefix@[k] == payload@[k],
        decreases prefix@.len() - i,
    {
        if prefix[i] != payload[i] {
            return false;
        }
        i += 1;
    }
    true
}

/// The amount recorded for a burn: a fixed amount for each input of the
/// transaction.
pub fn calculate_burn_amount(input_count: u64) -> (amount: u64)
    ensures
        amount == burn_amount_spec(input_count),
{
    match input_count.checked_mul(BURN_AMOUNT_PER_INPUT) {
        Some(amount) => amount,
        None => u64::MAX,
    }
}

/// Reads four bytes of `payload`, from `offset` on, as a number with the
/// most significant byte first.
fn read_be_u32(payload: &[u8], offset: usize) -> (value: u32)
    requires
        offset + 4 <= payload@.len(),
    ensures
        value == be_u32_spec(payload@.subrange(offset as int, offset + 4)),
{
    let b0 = payload[offset] as u32;
    let b1 = payload[offset + 1] as u32;
    let b2 = payload[offset + 2] as u32;
    let b3 = payload[offset + 3] as u32;
    b0 * 0x100_0000 + b1 * 0x1_0000 + b2 * 0x100 + b3
}

/// Decodes a burn: the prefix, then the chain id in four bytes with the most
/// significant first, then the address in twenty bytes. `amount` is
/// recorded as it is given. A payload under 28 bytes is too short; a longer
/// one that does not start with the burn prefix is a mismatch.
pub fn decode_burn(
    payload: &[u8],
    patterns: &CoreLanePatterns,
    amount: u64,
) -> (result: Result<BurnPayload, DecodeError>)
    ensures
        result is Ok <==> is_burn_payload(payload@, patterns@.burn_prefix),
        result matches Err(e) ==> (e == DecodeError::TooShort <==> payload@.len()
            < BURN_PAYLOAD_LEN),
        result matches Err(e) ==> (e == DecodeError::PrefixMismatch <==> payload@.len()
            >= BURN_PAYLOAD_LEN),
        result matches Ok(burn) ==> {
            &&& burn.amount == amount
            &&& burn.chain_id == be_u32_spec(payload@.subrange(4, 8))
            &&& burn.destination_address@ == payload@.subrange(8, 28)
        },
{
    if payload.len() < BURN_PAYLOAD_LEN {
        return Err(DecodeError::TooShort);
    }
    if !starts_with(payload, patterns.burn_prefix.as_slice()) {
        return Err(DecodeError::PrefixMismatch);
    }
    let chain_id = read_be_u32(payload, 4);
    let mut destination_address: [u8; 20] = [0u8; 20];
    let mut i: usize = 0;
    while i < 20
        invariant
            i <= 20,
            payload@.len() >= 28,
            forall|k: int| 0 <= k < i ==> destination_address@[k] == payload@[8 + k],
        decreases 20 - i,
    {
        destination_address[i] = payload[8 + i];
        i += 1;
    }
    Ok(BurnPayload { amount, chain_id, destination_address })
}

/// Decodes a data-availability posting: a payload that starts with the
/// prefix, kept whole.
pub fn decode_da(
    payload: &[u8],
    patterns: &CoreLanePatterns,
) -> (result: Result<DAPayload, DecodeError>)
    ensures
        result is Ok <==> is_da_payload(payload@, patterns@.da_prefix),
        result matches Err(e) ==> e == DecodeError::PrefixMismatch,
        result matches Ok(da) ==> da.raw_data@ == payload@,
{
    if !starts_with(payload, patterns.da_prefix.as_slice()) {
        return Err(DecodeError::PrefixMismatch);
    }
    Ok(DAPayload { raw_data: slice_to_vec(payload) })
}

/// Decodes a fill marker: a payload of four bytes or more that starts with
/// the prefix, kept whole.
pub fn decode_fill(
    payload: &[u8],
    patterns: &CoreLanePatterns,
) -> (result: Result<FillPayload, DecodeError>)
    ensures
        result is Ok <==> is_fill_payload(payload@, patterns@.fill_prefix),
        result matches Err(e) ==> (e == DecodeError::TooShort <==> payload@.len()
            < FILL_PAYLOAD_LEN),
        result matches Err(e) ==> (e == DecodeError::PrefixMismatch <==> payload@.len()
            >= FILL_PAYLOAD_LEN),
        result matches Ok(fill) ==> fill.raw_data@ == payload@,
{
    if payload.len() < FILL_PAYLOAD_LEN {
        return Err(DecodeError::TooShort);
    }
    if !starts_with(payload, patterns.fill_prefix.as_slice()) {
        return Err(DecodeError::PrefixMismatch);
    }
    Ok(FillPayload { raw_data: slice_to_vec(payload) })
}

} // verus!
