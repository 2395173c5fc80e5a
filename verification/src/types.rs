//! The values that the pallet stores, emits and refuses with.

use vstd::prelude::*;

verus! {

/// The DNA of a kitty: 32 bytes that identify it.
pub type Dna = [u8; 32];

/// An account, as the runtime identifies it.
pub type AccountId = u64;

/// A block number.
pub type BlockNumber = u64;

/// A kitty: its DNA and the account that owns it.
#[derive(Clone, Copy, Debug, PartialEq, Eq)]
pub struct Kitty {
    pub dna: Dna,
    pub owner: AccountId,
}

/// What a successful call reports.
#[derive(Clone, Copy, Debug, PartialEq, Eq)]
pub enum Event {
    /// A kitty was created for `owner`.
    Created { owner: AccountId },
    /// The kitty `kitty_id` passed from `from` to `to`.
    Transferred { from: AccountId, to: AccountId, kitty_id: Dna },
}

/// Why the pallet refused a call.
#[derive(Clone, Copy, Debug, PartialEq, Eq)]
pub enum Error {
    /// The kitty counter is at its maximum.
    TooManyKitties,
    /// A kitty with this DNA exists already.
    DuplicatedKitty,
    /// No kitty has this DNA.
    NoKitty,
    /// The receiving account owns as many kitties as it may.
    TooManyOwned,
    /// The sender does not own the kitty.
    NotOwner,
    /// Sender and receiver are the same account.
    TransferToSelf,
}

/// Why a dispatched call failed.
#[derive(Clone, Copy, Debug, PartialEq, Eq)]
pub enum DispatchError {
    /// The call was not signed by an account.
    BadOrigin,
    /// The pallet refused the call.
    Module(Error),
}

/// Who a call comes from.
#[derive(Clone, Copy, Debug, PartialEq, Eq)]
pub enum Origin {
    /// The root origin.
    Root,
    /// A call signed by an account.
    Signed(AccountId),
    /// An unsigned call.
    Unsigned,
}

/// What the system records of the block that a call runs in, from which a new
/// kitty's DNA is derived.
#[derive(Clone, Copy, Debug, PartialEq, Eq)]
pub struct BlockContext {
    /// The hash of the parent block.
    pub parent_hash: [u8; 32],
    /// The number of the current block.
    pub block_number: BlockNumber,
    /// The index of the extrinsic being applied, if any.
    pub extrinsic_index: Option<u32>,
}

/// The account that signed the call: `Ok` with the signer for a signed origin,
/// `Err(DispatchError::BadOrigin)` for any other.
pub open spec fn signer_of(origin: Origin) -> Result<AccountId, DispatchError> {
    match origin {
        Origin::Signed(who) => Ok(who),
        _ => Err(DispatchError::BadOrigin),
    }
}

/// Checks that the call is signed and returns the signer.
pub fn ensure_signed(origin: Origin) -> (r: Result<AccountId, DispatchError>)
    ensures
        r == signer_of(origin),
{
    match origin {
        Origin::Signed(who) => Ok(who),
        _ => Err(DispatchError::BadOrigin),
    }
}

} // verus!
