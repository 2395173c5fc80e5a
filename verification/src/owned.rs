//! The bounded list of DNAs that one account owns, held in FRAME's
//! `BoundedVec` with a bound of one hundred entries.

use vstd::prelude::*;
use polkadot_sdk_frame::prelude::ConstU32;
use polkadot_sdk_frame::prelude::BoundedVec;

use crate::types::Dna;

verus! {

/// `BoundedVec` of FRAME (defined in `bounded-collections`): a `Vec`
/// whose length stays within the bound `S`. Opaque here; its contents are
/// `owned_dnas`.
#[verifier::external_type_specification]
#[verifier::external_body]
#[verifier::reject_recursive_types(T)]
#[verifier::reject_recursive_types(S)]
pub struct ExBoundedVec<T, S>(BoundedVec<T, S>);

/// `ConstU32` of FRAME: the type that carries the constant bound `N`.
#[verifier::external_type_specification]
#[verifier::external_body]
pub struct ExConstU32<const N: u32>(ConstU32<N>);

/// The list of kitties that one account owns: at most one hundred DNAs.
pub type OwnedList = BoundedVec<Dna, ConstU32<100>>;

/// The bound of an owned list, the `100` of its `ConstU32<100>`.
pub open spec fn max_owned() -> nat {
    100
}

/// What a `BoundedVec<Dna, ConstU32<100>>` holds: its DNAs, in order.
pub uninterp spec fn owned_dnas(v: BoundedVec<Dna, ConstU32<100>>) -> Seq<Dna>;

/// `BoundedVec::new`: the list it makes holds nothing.
#[verifier::external_body]
pub fn owned_new() -> (r: OwnedList)
    ensures
        owned_dnas(r) == Seq::<Dna>::empty(),
{
    BoundedVec::new()
}


/// The length of an owned list (`len` of the `Vec` that a `BoundedVec`
/// dereferences to).
#[verifier::external_body]
pub fn owned_len(v: &OwnedList) -> (r: usize)
    ensures
        r == owned_dnas(*v).len(),
{
    v.len()
}

/// The entry at position `i` of an owned list (indexing a `BoundedVec`, which
/// panics out of bounds, hence the `requires`).
#[verifier::external_body]
pub fn owned_get(v: &OwnedList, i: usize) -> (r: Dna)
    requires
        i < owned_dnas(*v).len(),
    ensures
        r == owned_dnas(*v)[i as int],
{
    v[i]
}

/// `BoundedVec::try_push`, which pushes when the length is below
/// `S::get()` (here one hundred): below the bound the DNA is appended and `Ok`
/// comes back; at or above it nothing changes and the DNA comes back in `Err`.
#[verifier::external_body]
pub fn owned_try_push(v: &mut OwnedList, d: Dna) -> (r: Result<(), Dna>)
    ensures
        owned_dnas(*old(v)).len() < max_owned() ==> r is Ok && owned_dnas(*final(v)) == owned_dnas(
            *old(v),
        ).push(d),
        owned_dnas(*old(v)).len() >= max_owned() ==> (r matches Err(e) && e == d && owned_dnas(*final(v))
            == owned_dnas(*old(v))),
{
    v.try_push(d)
}

/// `BoundedVec::swap_remove`: the entry at `i` is taken out and returned, and the
/// last entry takes its place (it panics out of bounds, hence the `requires`).
#[verifier::external_body]
pub fn owned_swap_remove(v: &mut OwnedList, i: usize) -> (r: Dna)
    requires
        i < owned_dnas(*old(v)).len(),
    ensures
        r == owned_dnas(*old(v))[i as int],
        owned_dnas(*final(v)) == owned_dnas(*old(v)).update(i as int, owned_dnas(*old(v)).last()).drop_last(),
{
    v.swap_remove(i)
}

/// `Clone` of a `BoundedVec`, which clones the inner `Vec` of `Copy` DNAs: the
/// copy holds the same entries.
#[verifier::external_body]
pub fn owned_clone(v: &OwnedList) -> (r: OwnedList)
    ensures
        owned_dnas(r) == owned_dnas(*v),
{
    v.clone()
}

} // verus!
