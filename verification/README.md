# pallet_kitties

A verified model of a kitties pallet: accounts create kitties, each with a
32-byte DNA derived from the block and the kitty counter, and transfer them to
one another.

- `src/types.rs`: kitties, events, errors, origins and the block context.
- `src/owned.rs`: the bounded list of DNAs that an account owns (`BoundedVec`
  of FRAME, with the contracts of the methods used).
- `src/hashing.rs`: the Blake2-256 hash from which a new DNA is taken.
- `src/table.rs`: a map kept as a vector of entries with distinct keys.
- `src/pallet.rs`: the storage (`CountForKitties`, `Kitties`, `KittiesOwned`)
  and the calls `mint`, `do_transfer`, `create_kitty` and `transfer`, each with
  its exact outcome as a spec function.
- `src/laws.rs`: consistency of the storage and what calls keep of it.
- `app/lib.rs`: SCALE-encodable copies of the stored values.
