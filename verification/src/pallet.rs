//! The pallet: its storage and the calls that mint, create and transfer
//! kitties.

use vstd::prelude::*;

use crate::hashing::{hash_of_payload, payload_hash};
use crate::owned::{
    max_owned, owned_clone, owned_dnas, owned_get, owned_len, owned_new, owned_swap_remove, owned_try_push,
    OwnedList,
};
use crate::table::{Key, Table};
use crate::types::{
    ensure_signed, signer_of, AccountId, BlockContext, DispatchError, Dna, Error, Event, Kitty,
    Origin,
};

verus! {

/// The pallet's storage, as a mathematical value.
pub struct Storage {
    /// `CountForKitties`: how many kitties have been created.
    pub count_for_kitties: u32,
    /// `Kitties`: the kitties, keyed by DNA.
    pub kitties: Map<Dna, Kitty>,
    /// `KittiesOwned`: the DNAs that each account owns, in order; an account
    /// without an entry owns nothing.
    pub kitties_owned: Map<AccountId, Seq<Dna>>,
}

/// The storage of a new chain: nothing counted, stored or owned.
pub open spec fn genesis() -> Storage {
    Storage { count_for_kitties: 0, kitties: Map::empty(), kitties_owned: Map::empty() }
}

/// The DNAs that `who` owns (the empty list for an account without an entry).
pub open spec fn owned_of(s: Storage, who: AccountId) -> Seq<Dna> {
    if s.kitties_owned.contains_key(who) {
        s.kitties_owned[who]
    } else {
        Seq::empty()
    }
}

/// The position of the first occurrence of `d` in `l` (meaningful when `l`
/// contains `d`).
pub open spec fn first_index(l: Seq<Dna>, d: Dna) -> int {
    choose|i: int| 0 <= i < l.len() && l[i] == d && forall|j: int| 0 <= j < i ==> l[j] != d
}

/// `l` with the entry at `i` taken out and the last entry moved into its place.
pub open spec fn swap_removed(l: Seq<Dna>, i: int) -> Seq<Dna> {
    l.update(i, l.last()).drop_last()
}

/// The storage and result of `mint(owner, dna)`. A duplicated DNA and a full
/// counter change nothing; when the owner's list is full, the counter and the
/// new kitty are written before the refusal.
pub open spec fn mint_outcome(s: Storage, owner: AccountId, dna: Dna) -> (
    Storage,
    Result<Event, Error>,
) {
    if s.kitties.contains_key(dna) {
        (s, Err(Error::DuplicatedKitty))
    } else if s.count_for_kitties == u32::MAX {
        (s, Err(Error::TooManyKitties))
    } else {
        let count = (s.count_for_kitties + 1) as u32;
        let kitties = s.kitties.insert(dna, Kitty { dna, owner });
        if owned_of(s, owner).len() >= max_owned() {
            (
                Storage { count_for_kitties: count, kitties, kitties_owned: s.kitties_owned },
                Err(Error::TooManyOwned),
            )
        } else {
            (
                Storage {
                    count_for_kitties: count,
                    kitties,
                    kitties_owned: s.kitties_owned.insert(owner, owned_of(s, owner).push(dna)),
                },
                Ok(Event::Created { owner }),
            )
        }
    }
}

/// The storage and result of `do_transfer(from, to, dna)`. Every refusal
/// leaves the storage as it was.
pub open spec fn transfer_outcome(s: Storage, from: AccountId, to: AccountId, dna: Dna) -> (
    Storage,
    Result<Event, Error>,
) {
    if from == to {
        (s, Err(Error::TransferToSelf))
    } else if !s.kitties.contains_key(dna) {
        (s, Err(Error::NoKitty))
    } else if s.kitties[dna].owner != from {
        (s, Err(Error::NotOwner))
    } else if owned_of(s, to).len() >= max_owned() {
        (s, Err(Error::TooManyOwned))
    } else if !owned_of(s, from).contains(dna) {
        (s, Err(Error::NotOwner))
    } else {
        let from_list = owned_of(s, from);
        let kitty = s.kitties[dna];
        (
            Storage {
                count_for_kitties: s.count_for_kitties,
                kitties: s.kitties.insert(dna, Kitty { dna: kitty.dna, owner: to }),
                kitties_owned: s.kitties_owned.insert(to, owned_of(s, to).push(dna)).insert(
                    from,
                    swap_removed(from_list, first_index(from_list, dna)),
                ),
            },
            Ok(Event::Transferred { from, to, kitty_id: dna }),
        )
    }
}

/// The storage and result of the `create_kitty` call with the new kitty's DNA
/// `dna`. The call is all or nothing: when it fails, the storage is as it was.
pub open spec fn create_kitty_outcome(s: Storage, origin: Origin, dna: Dna) -> (
    Storage,
    Result<Event, DispatchError>,
) {
    match signer_of(origin) {
        Ok(who) => match mint_outcome(s, who, dna) {
            (t, Ok(e)) => (t, Ok(e)),
            (_, Err(e)) => (s, Err(DispatchError::Module(e))),
        },
        Err(e) => (s, Err(e)),
    }
}

/// The storage and result of the `transfer` call. When it fails, the storage
/// is as it was.
pub open spec fn transfer_call_outcome(s: Storage, origin: Origin, to: AccountId, dna: Dna) -> (
    Storage,
    Result<Event, DispatchError>,
) {
    match signer_of(origin) {
        Ok(from) => match transfer_outcome(s, from, to, dna) {
            (t, Ok(e)) => (t, Ok(e)),
            (_, Err(e)) => (s, Err(DispatchError::Module(e))),
        },
        Err(e) => (s, Err(e)),
    }
}

/// The DNA that `create_kitty` gives a new kitty in block `block` when the
/// counter stands at `count`: the 32 bytes of the hash of both.
pub open spec fn new_dna(block: BlockContext, count: u32) -> Dna {
    choose|d: Dna|
        #[trigger] d@ == payload_hash(block.parent_hash@, block.block_number, block.extrinsic_index, count)
}

/// The position of the first occurrence of `dna` in `list`, if any.
pub fn position_of(list: &OwnedList, dna: &Dna) -> (r: Option<usize>)
    ensures
        match r {
            Some(i) => i < owned_dnas(*list).len() && owned_dnas(*list).contains(*dna) && i
                == first_index(owned_dnas(*list), *dna),
            None => !owned_dnas(*list).contains(*dna),
        },
{
    let n = owned_len(list);
    let mut i: usize = 0;
    while i < n
        invariant
            n == owned_dnas(*list).len(),
            0 <= i <= n,
            forall|j: int| 0 <= j < i ==> owned_dnas(*list)[j] != *dna,
        decreases n - i,
    {
        let item = owned_get(list, i);
        if item.key_eq(dna) {
            proof {
                let l = owned_dnas(*list);
                assert(l[i as int] == *dna);
                let f = first_index(l, *dna);
                assert(f == i) by {
                    assert(l[i as int] == *dna && forall|j: int| 0 <= j < i ==> l[j] != *dna);
                }
            }
            return Some(i);
        }
        i = i + 1;
    }
    None
}

/// The kitties pallet with its storage.
pub struct Pallet {
    count_for_kitties: u32,
    kitties: Table<Dna, Kitty>,
    kitties_owned: Table<AccountId, OwnedList>,
}

impl View for Pallet {
    type V = Storage;

    closed spec fn view(&self) -> Storage {
        Storage {
            count_for_kitties: self.count_for_kitties,
            kitties: self.kitties@,
            kitties_owned: self.kitties_owned@.map_values(|l: OwnedList| owned_dnas(l)),
        }
    }
}

impl Pallet {
    /// The storage tables are well formed.
    pub closed spec fn wf(&self) -> bool {
        self.kitties.wf() && self.kitties_owned.wf()
    }

    /// The pallet with empty storage.
    pub fn new() -> (r: Self)
        ensures
            r.wf(),
            r@ == genesis(),
    {
        let r = Pallet { count_for_kitties: 0, kitties: Table::new(), kitties_owned: Table::new() };
        assert(r@.kitties_owned =~= Map::<AccountId, Seq<Dna>>::empty());
        r
    }

    /// `CountForKitties::get()`.
    pub fn count_for_kitties(&self) -> (r: u32)
        ensures
            r == self@.count_for_kitties,
    {
        self.count_for_kitties
    }

    /// `CountForKitties::set(count)` (and `put`).
    pub fn set_count_for_kitties(&mut self, count: u32)
        requires
            old(self).wf(),
        ensures
            final(self).wf(),
            final(self)@ == (Storage { count_for_kitties: count, ..old(self)@ }),
    {
        self.count_for_kitties = count;
    }

    /// `Kitties::get(dna)`.
    pub fn kitty(&self, dna: &Dna) -> (r: Option<Kitty>)
        requires
            self.wf(),
        ensures
            r == (if self@.kitties.contains_key(*dna) {
                Some(self@.kitties[*dna])
            } else {
                None
            }),
    {
        match self.kitties.get(dna) {
            Some(k) => Some(*k),
            None => None,
        }
    }

    /// `Kitties::contains_key(dna)`.
    pub fn contains_kitty(&self, dna: &Dna) -> (r: bool)
        requires
            self.wf(),
        ensures
            r == self@.kitties.contains_key(*dna),
    {
        self.kitties.contains_key(dna)
    }

    /// `Kitties::insert(dna, kitty)`.
    pub fn insert_kitty(&mut self, dna: Dna, kitty: Kitty)
        requires
            old(self).wf(),
        ensures
            final(self).wf(),
            final(self)@ == (Storage { kitties: old(self)@.kitties.insert(dna, kitty), ..old(self)@ }),
    {
        self.kitties.insert(dna, kitty);
    }

    /// `Kitties::iter().count()`: how many kitties are stored.
    pub fn kitties_count(&self) -> (r: usize)
        requires
            self.wf(),
        ensures
            self@.kitties.dom().finite(),
            r == self@.kitties.len(),
    {
        self.kitties.len()
    }

    /// `KittiesOwned::get(who)`: the list of kitties that `who` owns.
    pub fn kitties_owned(&self, who: AccountId) -> (r: OwnedList)
        requires
            self.wf(),
        ensures
            owned_dnas(r) == owned_of(self@, who),
    {
        match self.kitties_owned.get(&who) {
            Some(l) => owned_clone(l),
            None => owned_new(),
        }
    }

    /// `KittiesOwned::insert(who, list)`.
    pub fn insert_kitties_owned(&mut self, who: AccountId, list: OwnedList)
        requires
            old(self).wf(),
        ensures
            final(self).wf(),
            final(self)@ == (Storage {
                kitties_owned: old(self)@.kitties_owned.insert(who, owned_dnas(list)),
                ..old(self)@
            }),
    {
        let ghost f = |l: OwnedList| owned_dnas(l);
        let ghost before = self.kitties_owned@;
        self.kitties_owned.insert(who, list);
        assert(self.kitties_owned@.map_values(f) =~= before.map_values(f).insert(who, owned_dnas(list)));
    }

    /// Mints a kitty with DNA `dna` for `owner`: refuses a DNA that exists
    /// already and a counter at its maximum, then counts the kitty, stores it
    /// and appends its DNA to the owner's list, refusing when that list is
    /// full.
    pub fn mint(&mut self, owner: AccountId, dna: Dna) -> (r: Result<Event, Error>)
        requires
            old(self).wf(),
        ensures
            final(self).wf(),
            (final(self)@, r) == mint_outcome(old(self)@, owner, dna),
    {
        let kitty = Kitty { dna, owner };
        if self.kitties.contains_key(&dna) {
            return Err(Error::DuplicatedKitty);
        }
        let current_count = self.count_for_kitties;
        let updated_count = match current_count.checked_add(1) {
            Some(c) => c,
            None => {
                return Err(Error::TooManyKitties);
            },
        };
        self.count_for_kitties = updated_count;
        self.kitties.insert(dna, kitty);
        let mut owned = self.kitties_owned(owner);
        match owned_try_push(&mut owned, dna) {
            Ok(()) => {},
            Err(_) => {
                return Err(Error::TooManyOwned);
            },
        }
        self.insert_kitties_owned(owner, owned);
        Ok(Event::Created { owner })
    }

    /// The DNA for a new kitty: the hash of the block context and the kitty
    /// counter.
    pub fn gen_dna(&self, block: &BlockContext) -> (r: Dna)
        ensures
            r@ == payload_hash(
                block.parent_hash@,
                block.block_number,
                block.extrinsic_index,
                self@.count_for_kitties,
            ),
            r == new_dna(*block, self@.count_for_kitties),
    {
        let r = hash_of_payload(
            block.parent_hash,
            block.block_number,
            block.extrinsic_index,
            self.count_for_kitties,
        );
        proof {
            broadcast use vstd::array::group_array_axioms;

            let d = new_dna(*block, self@.count_for_kitties);
            assert(d@ == r@);
            assert(d =~= r) by {
                assert forall|i: int| 0 <= i < 32 implies d[i] == r[i] by {
                    assert(d@[i] == r@[i]);
                }
            }
        }
        r
    }

    /// Transfers the kitty `dna` from `from` to `to`: refuses a transfer to
    /// oneself, an unknown kitty, a sender who does not own it, a receiver
    /// whose list is full and a sender whose list lacks it; otherwise the DNA
    /// moves from the sender's list to the end of the receiver's and the kitty
    /// records its new owner.
    pub fn do_transfer(&mut self, from: AccountId, to: AccountId, dna: Dna) -> (r: Result<
        Event,
        Error,
    >)
        requires
            old(self).wf(),
        ensures
            final(self).wf(),
            (final(self)@, r) == transfer_outcome(old(self)@, from, to, dna),
    {
        if from == to {
            return Err(Error::TransferToSelf);
        }
        let kitty = match self.kitties.get(&dna) {
            Some(k) => *k,
            None => {
                return Err(Error::NoKitty);
            },
        };
        if kitty.owner != from {
            return Err(Error::NotOwner);
        }
        let mut to_owned = self.kitties_owned(to);
        match owned_try_push(&mut to_owned, dna) {
            Ok(()) => {},
            Err(_) => {
                return Err(Error::TooManyOwned);
            },
        }
        let mut from_owned = self.kitties_owned(from);
        let index = match position_of(&from_owned, &dna) {
            Some(i) => i,
            None => {
                return Err(Error::NotOwner);
            },
        };
        let _ = owned_swap_remove(&mut from_owned, index);
        let moved = Kitty { dna: kitty.dna, owner: to };
        self.kitties.insert(dna, moved);
        self.insert_kitties_owned(to, to_owned);
        self.insert_kitties_owned(from, from_owned);
        Ok(Event::Transferred { from, to, kitty_id: dna })
    }

    /// The `create_kitty` call: the signer of `origin` gets a new kitty whose
    /// DNA is derived from `block` and the kitty counter. A failed call leaves
    /// the storage as it was: the writes that `mint` made before refusing a
    /// full list are undone.
    pub fn create_kitty(&mut self, origin: Origin, block: &BlockContext) -> (r: Result<
        Event,
        DispatchError,
    >)
        requires
            old(self).wf(),
        ensures
            final(self).wf(),
            (final(self)@, r) == create_kitty_outcome(
                old(self)@,
                origin,
                new_dna(*block, old(self)@.count_for_kitties),
            ),
    {
        let who = match ensure_signed(origin) {
            Ok(who) => who,
            Err(e) => {
                return Err(e);
            },
        };
        let dna = self.gen_dna(block);
        let count_before = self.count_for_kitties;
        let ghost before = self@;
        match self.mint(who, dna) {
            Ok(event) => Ok(event),
            Err(e) => {
                match e {
                    Error::TooManyOwned => {
                        self.count_for_kitties = count_before;
                        self.kitties.remove(&dna);
                        assert(self@.kitties =~= before.kitties);
                    },
                    _ => {},
                }
                assert(self@ == before);
                Err(DispatchError::Module(e))
            },
        }
    }

    /// The `transfer` call: the signer of `origin` transfers the kitty
    /// `kitty_id` to `to`. A failed call leaves the storage as it was.
    pub fn transfer(&mut self, origin: Origin, to: AccountId, kitty_id: Dna) -> (r: Result<
        Event,
        DispatchError,
    >)
        requires
            old(self).wf(),
        ensures
            final(self).wf(),
            (final(self)@, r) == transfer_call_outcome(old(self)@, origin, to, kitty_id),
    {
        let from = match ensure_signed(origin) {
            Ok(who) => who,
            Err(e) => {
                return Err(e);
            },
        };
        match self.do_transfer(from, to, kitty_id) {
            Ok(event) => Ok(event),
            Err(e) => Err(DispatchError::Module(e)),
        }
    }
}

} // verus!
