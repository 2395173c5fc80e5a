//! The hash from which a new kitty's DNA is taken.

use vstd::prelude::*;
use polkadot_sdk_frame::primitives::H256;
use polkadot_sdk_frame::primitives::BlakeTwo256;

verus! {

/// The Blake2-256 hash of the SCALE encoding of the tuple
/// `(parent_hash, block_number, extrinsic_index, count)`.
pub uninterp spec fn payload_hash(
    parent_hash: Seq<u8>,
    block_number: u64,
    extrinsic_index: Option<u32>,
    count: u32,
) -> Seq<u8>;

/// `BlakeTwo256::hash_of` (FRAME's `primitives`, from `sp_runtime`), applied to the tuple of the parent
/// hash (as an `H256`), the block number, the extrinsic index and the kitty
/// counter. The contract claims only that the 32 bytes it returns are a function
/// of these four values; what the function is (SCALE encoding, then Blake2-256)
/// is not stated.
#[verifier::external_body]
pub fn hash_of_payload(
    parent_hash: [u8; 32],
    block_number: u64,
    extrinsic_index: Option<u32>,
    count: u32,
) -> (r: [u8; 32])
    ensures
        r@ == payload_hash(parent_hash@, block_number, extrinsic_index, count),
{
    let payload = (H256::from(parent_hash), block_number, extrinsic_index, count);
    <BlakeTwo256 as polkadot_sdk_frame::primitives::Hash>::hash_of(&payload).into()
}

} // verus!
