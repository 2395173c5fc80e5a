//! A verified model of the kitties pallet: the storage it keeps (the kitty
//! counter, the kitties keyed by their DNA and the bounded list of kitties each
//! account owns) and the calls that create and transfer kitties.

pub mod hashing;
pub mod laws;
pub mod owned;
pub mod pallet;
pub mod table;
pub mod types;
