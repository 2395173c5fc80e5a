//! What every call keeps, and how calls combine.

use vstd::prelude::*;

use crate::owned::max_owned;
use crate::pallet::{
    create_kitty_outcome, first_index, genesis, mint_outcome, new_dna, owned_of, swap_removed,
    transfer_call_outcome, transfer_outcome, Storage,
};
use crate::hashing::payload_hash;
use crate::types::{AccountId, BlockContext, DispatchError, Dna, Error, Event, Kitty, Origin};

verus! {

/// The storage is consistent: the counter counts the stored kitties; each
/// kitty is stored under its own DNA and listed by its owner; each listed DNA
/// is a stored kitty owned by the account that lists it; no list names a kitty
/// twice or holds more than one hundred kitties.
pub open spec fn consistent(s: Storage) -> bool {
    &&& s.kitties.dom().finite()
    &&& s.count_for_kitties == s.kitties.len()
    &&& forall|d: Dna| #[trigger]
        s.kitties.contains_key(d) ==> s.kitties[d].dna == d && owned_of(
            s,
            s.kitties[d].owner,
        ).contains(d)
    &&& forall|a: AccountId, i: int|
        0 <= i < owned_of(s, a).len() ==> s.kitties.contains_key(#[trigger] owned_of(s, a)[i])
            && s.kitties[owned_of(s, a)[i]].owner == a
    &&& forall|a: AccountId| #[trigger] owned_of(s, a).no_duplicates()
    &&& forall|a: AccountId| #[trigger] owned_of(s, a).len() <= max_owned()
}

/// The storage of a new chain is consistent.
pub proof fn lemma_genesis_consistent()
    ensures
        consistent(genesis()),
{
    let s = genesis();
    assert(s.kitties.dom() =~= Set::<Dna>::empty());
}

/// The first position of `d` in a list that contains it holds `d`, and no
/// earlier position does.
pub proof fn lemma_first_index(l: Seq<Dna>, d: Dna)
    requires
        l.contains(d),
    ensures
        0 <= first_index(l, d) < l.len(),
        l[first_index(l, d)] == d,
        forall|j: int| 0 <= j < first_index(l, d) ==> l[j] != d,
    decreases l.len(),
{
    let p = l.drop_last();
    if p.contains(d) {
        lemma_first_index(p, d);
        let k = first_index(p, d);
        assert(p[k] == l[k]);
        assert forall|j: int| 0 <= j < k implies l[j] != d by {
            assert(p[j] == l[j]);
        }
        assert(l[k] == d && forall|j: int| 0 <= j < k ==> l[j] != d);
    } else {
        let k = l.len() - 1;
        assert forall|j: int| 0 <= j < k implies l[j] != d by {
            assert(p[j] == l[j]);
        }
        assert(l[k] == d);
    }
}

/// A successful mint keeps the storage consistent.
pub proof fn lemma_mint_keeps_consistency(s: Storage, owner: AccountId, dna: Dna)
    requires
        consistent(s),
        mint_outcome(s, owner, dna).1 is Ok,
    ensures
        consistent(mint_outcome(s, owner, dna).0),
{
    let t = mint_outcome(s, owner, dna).0;
    let l = owned_of(s, owner);
    assert(!l.contains(dna));
    assert(owned_of(t, owner) == l.push(dna));
    assert(t.kitties.dom() =~= s.kitties.dom().insert(dna));
    assert forall|d: Dna| #[trigger] t.kitties.contains_key(d) implies t.kitties[d].dna == d
        && owned_of(t, t.kitties[d].owner).contains(d) by {
        if d == dna {
            assert(owned_of(t, owner)[l.len() as int] == dna);
        } else {
            let o = s.kitties[d].owner;
            if o == owner {
                let j = choose|j: int| 0 <= j < l.len() && l[j] == d;
                assert(owned_of(t, owner)[j] == d);
            } else {
                assert(owned_of(t, o) == owned_of(s, o));
            }
        }
    }
    assert forall|a: AccountId, i: int| 0 <= i < owned_of(t, a).len() implies t.kitties.contains_key(
        #[trigger] owned_of(t, a)[i],
    ) && t.kitties[owned_of(t, a)[i]].owner == a by {
        if a == owner {
            if i < l.len() {
                assert(owned_of(t, a)[i] == l[i]);
                assert(s.kitties.contains_key(l[i]));
            }
        } else {
            assert(owned_of(t, a) == owned_of(s, a));
            assert(s.kitties.contains_key(owned_of(s, a)[i]));
        }
    }
    assert forall|a: AccountId| #[trigger] owned_of(t, a).no_duplicates() by {
        if a == owner {
            assert forall|i: int, j: int|
                0 <= i < owned_of(t, a).len() && 0 <= j < owned_of(t, a).len() && i != j implies owned_of(
                t,
                a,
            )[i] != owned_of(t, a)[j] by {
                if i < l.len() && j < l.len() {
                    assert(l.no_duplicates());
                } else if i < l.len() {
                    assert(l[i] != dna);
                } else {
                    assert(l[j] != dna);
                }
            }
        } else {
            assert(owned_of(t, a) == owned_of(s, a));
        }
    }
    assert forall|a: AccountId| #[trigger] owned_of(t, a).len() <= max_owned() by {
        if a != owner {
            assert(owned_of(t, a) == owned_of(s, a));
        }
    }
}

/// The `create_kitty` call keeps the storage consistent, whatever its origin
/// and whether it succeeds or fails.
pub proof fn lemma_create_kitty_keeps_consistency(s: Storage, origin: Origin, dna: Dna)
    requires
        consistent(s),
    ensures
        consistent(create_kitty_outcome(s, origin, dna).0),
{
    if let Origin::Signed(who) = origin {
        if mint_outcome(s, who, dna).1 is Ok {
            lemma_mint_keeps_consistency(s, who, dna);
        }
    }
}

/// Taking out the entry at `i` keeps every other entry of the list, moves the
/// last one into position `i`, and keeps a list without repetitions without
/// repetitions.
pub proof fn lemma_swap_removed(l: Seq<Dna>, i: int)
    requires
        0 <= i < l.len(),
    ensures
        swap_removed(l, i).len() == l.len() - 1,
        forall|k: int|
            0 <= k < l.len() - 1 ==> #[trigger] swap_removed(l, i)[k] == (if k == i {
                l[l.len() - 1]
            } else {
                l[k]
            }),
        forall|j: int| 0 <= j < l.len() && j != i ==> swap_removed(l, i).contains(#[trigger] l[j]),
        forall|e: Dna| #[trigger]
            swap_removed(l, i).contains(e) ==> exists|j: int| 0 <= j < l.len() && j != i && l[j] == e,
        l.no_duplicates() ==> swap_removed(l, i).no_duplicates(),
{
    let r = swap_removed(l, i);
    let n = l.len();
    assert forall|j: int| 0 <= j < n && j != i implies r.contains(#[trigger] l[j]) by {
        if j == n - 1 {
            assert(r[i] == l[j]);
        } else {
            assert(r[j] == l[j]);
        }
    }
    assert forall|e: Dna| #[trigger] r.contains(e) implies exists|j: int|
        0 <= j < n && j != i && l[j] == e by {
        let k = choose|k: int| 0 <= k < r.len() && r[k] == e;
        if k == i {
            assert(l[n - 1] == e);
        } else {
            assert(l[k] == e);
        }
    }
    if l.no_duplicates() {
        assert forall|p: int, q: int| 0 <= p < r.len() && 0 <= q < r.len() && p != q implies r[p]
            != r[q] by {
            let pp = if p == i { n - 1 } else { p };
            let qq = if q == i { n - 1 } else { q };
            assert(r[p] == l[pp] && r[q] == l[qq]);
        }
    }
}

/// A successful transfer keeps the storage consistent.
pub proof fn lemma_do_transfer_keeps_consistency(
    s: Storage,
    from: AccountId,
    to: AccountId,
    dna: Dna,
)
    requires
        consistent(s),
        transfer_outcome(s, from, to, dna).1 is Ok,
    ensures
        consistent(transfer_outcome(s, from, to, dna).0),
{
    let t = transfer_outcome(s, from, to, dna).0;
    let lf = owned_of(s, from);
    let lt = owned_of(s, to);
    lemma_first_index(lf, dna);
    let i = first_index(lf, dna);
    let lf2 = swap_removed(lf, i);
    let lt2 = lt.push(dna);
    lemma_swap_removed(lf, i);
    assert(owned_of(t, from) == lf2);
    assert(owned_of(t, to) == lt2);
    assert forall|a: AccountId| a != from && a != to implies #[trigger] owned_of(t, a) == owned_of(
        s,
        a,
    ) by {}
    assert(!lt.contains(dna)) by {
        if lt.contains(dna) {
            let k = choose|k: int| 0 <= k < lt.len() && lt[k] == dna;
            assert(s.kitties[lt[k]].owner == to);
        }
    }
    assert(!lf2.contains(dna)) by {
        if lf2.contains(dna) {
            let j = choose|j: int| 0 <= j < lf.len() && j != i && lf[j] == dna;
            assert(lf.no_duplicates());
        }
    }
    assert(t.kitties.dom() =~= s.kitties.dom());
    assert forall|d: Dna| #[trigger] t.kitties.contains_key(d) implies t.kitties[d].dna == d
        && owned_of(t, t.kitties[d].owner).contains(d) by {
        if d == dna {
            assert(lt2[lt.len() as int] == dna);
        } else {
            let o = s.kitties[d].owner;
            assert(owned_of(s, o).contains(d));
            if o == from {
                let j = choose|j: int| 0 <= j < lf.len() && lf[j] == d;
                assert(lf2.contains(lf[j]));
            } else if o == to {
                let j = choose|j: int| 0 <= j < lt.len() && lt[j] == d;
                assert(lt2[j] == d);
            }
        }
    }
    assert forall|a: AccountId, k: int| 0 <= k < owned_of(t, a).len() implies t.kitties.contains_key(
        #[trigger] owned_of(t, a)[k],
    ) && t.kitties[owned_of(t, a)[k]].owner == a by {
        if a == to {
            if k < lt.len() {
                assert(lt2[k] == lt[k]);
                assert(s.kitties.contains_key(lt[k]));
                assert(lt[k] != dna);
            }
        } else if a == from {
            let e = lf2[k];
            assert(lf2.contains(e));
            let j = choose|j: int| 0 <= j < lf.len() && j != i && lf[j] == e;
            assert(s.kitties.contains_key(lf[j]));
        } else {
            assert(s.kitties.contains_key(owned_of(s, a)[k]));
        }
    }
    assert forall|a: AccountId| #[trigger] owned_of(t, a).no_duplicates() by {
        if a == to {
            assert forall|p: int, q: int|
                0 <= p < lt2.len() && 0 <= q < lt2.len() && p != q implies lt2[p] != lt2[q] by {
                if p < lt.len() && q < lt.len() {
                    assert(lt.no_duplicates());
                } else if p < lt.len() {
                    assert(lt.contains(lt[p]));
                } else {
                    assert(lt.contains(lt[q]));
                }
            }
        } else if a == from {
            assert(lf.no_duplicates());
        }
    }
    assert forall|a: AccountId| #[trigger] owned_of(t, a).len() <= max_owned() by {
        assert(owned_of(s, a).len() <= max_owned());
    }
}

/// The `transfer` call keeps the storage consistent, whatever its origin and
/// whether it succeeds or fails.
pub proof fn lemma_transfer_keeps_consistency(s: Storage, origin: Origin, to: AccountId, dna: Dna)
    requires
        consistent(s),
    ensures
        consistent(transfer_call_outcome(s, origin, to, dna).0),
{
    if let Origin::Signed(from) = origin {
        if transfer_outcome(s, from, to, dna).1 is Ok {
            lemma_do_transfer_keeps_consistency(s, from, to, dna);
        }
    }
}

/// Taking out the entry at `i` takes one copy of that entry out of the list's
/// multiset of entries.
pub proof fn lemma_swap_removed_multiset(l: Seq<Dna>, i: int)
    requires
        0 <= i < l.len(),
    ensures
        swap_removed(l, i).to_multiset() == l.to_multiset().remove(l[i]),
{
    broadcast use vstd::seq_lib::group_to_multiset_ensures, vstd::multiset::group_multiset_axioms;

    let n = l.len() as int;
    let last = l[n - 1];
    let u = l.update(i, last);
    vstd::seq_lib::to_multiset_update(l, i, last);
    assert(swap_removed(l, i) =~= u.remove(n - 1));
    vstd::seq_lib::to_multiset_remove(u, n - 1);
    assert(u[n - 1] == last);
    assert(l.to_multiset().count(last) > 0) by {
        vstd::seq_lib::to_multiset_contains(l, last);
        assert(l.contains(last));
    }
    assert(swap_removed(l, i).to_multiset() =~= l.to_multiset().remove(l[i]));
}

/// A call that fails leaves the storage as it was.
pub proof fn lemma_failed_calls_change_nothing(
    s: Storage,
    origin: Origin,
    to: AccountId,
    dna: Dna,
)
    ensures
        create_kitty_outcome(s, origin, dna).1 is Err ==> create_kitty_outcome(s, origin, dna).0
            == s,
        transfer_call_outcome(s, origin, to, dna).1 is Err ==> transfer_call_outcome(
            s,
            origin,
            to,
            dna,
        ).0 == s,
{
}

/// A successful `create_kitty` signed by `who` counts one more kitty, stores
/// exactly one kitty more (the new one, owned by `who`) and appends its DNA to
/// the list of `who`.
pub proof fn lemma_create_kitty_adds_one_kitty(s: Storage, who: AccountId, dna: Dna)
    requires
        consistent(s),
        create_kitty_outcome(s, Origin::Signed(who), dna).1 is Ok,
    ensures
        ({
            let t = create_kitty_outcome(s, Origin::Signed(who), dna).0;
            &&& !s.kitties.contains_key(dna)
            &&& t.count_for_kitties == s.count_for_kitties + 1
            &&& t.kitties.len() == s.kitties.len() + 1
            &&& t.kitties == s.kitties.insert(dna, Kitty { dna, owner: who })
            &&& owned_of(t, who) == owned_of(s, who).push(dna)
            &&& forall|a: AccountId| a != who ==> #[trigger] owned_of(t, a) == owned_of(s, a)
        }),
{
    let t = create_kitty_outcome(s, Origin::Signed(who), dna).0;
    assert(t.kitties.dom() =~= s.kitties.dom().insert(dna));
}

/// A successful transfer neither creates nor destroys a kitty and leaves the
/// counter alone: the same DNAs are stored, the transferred kitty is owned by
/// the receiver, and every other kitty is as it was.
pub proof fn lemma_transfer_moves_one_kitty(s: Storage, from: AccountId, to: AccountId, dna: Dna)
    requires
        consistent(s),
        transfer_outcome(s, from, to, dna).1 is Ok,
    ensures
        ({
            let t = transfer_outcome(s, from, to, dna).0;
            &&& t.count_for_kitties == s.count_for_kitties
            &&& t.kitties.dom() == s.kitties.dom()
            &&& t.kitties[dna] == (Kitty { dna, owner: to })
            &&& forall|d: Dna| d != dna ==> #[trigger] t.kitties.get(d) == s.kitties.get(d)
            &&& owned_of(t, to) == owned_of(s, to).push(dna)
            &&& !owned_of(t, from).contains(dna)
            &&& owned_of(t, from).to_multiset() == owned_of(s, from).to_multiset().remove(dna)
        }),
{
    let t = transfer_outcome(s, from, to, dna).0;
    let lf = owned_of(s, from);
    lemma_first_index(lf, dna);
    let i = first_index(lf, dna);
    lemma_swap_removed(lf, i);
    lemma_swap_removed_multiset(lf, i);
    assert(t.kitties.dom() =~= s.kitties.dom());
    assert(!owned_of(t, from).contains(dna)) by {
        if owned_of(t, from).contains(dna) {
            let j = choose|j: int| 0 <= j < lf.len() && j != i && lf[j] == dna;
            assert(lf.no_duplicates());
        }
    }
}

/// Transferring a kitty from `a` to `b` and back succeeds both ways and
/// restores the storage, except that the kitty now comes last in the list of
/// `a`: the counter, the kitties and the list of `b` are as they were, and the
/// list of `a` holds the same kitties.
pub proof fn lemma_transfer_round_trip(s: Storage, a: AccountId, b: AccountId, dna: Dna)
    requires
        consistent(s),
        transfer_outcome(s, a, b, dna).1 is Ok,
    ensures
        ({
            let t = transfer_outcome(s, a, b, dna).0;
            let (u, r) = transfer_outcome(t, b, a, dna);
            &&& r is Ok
            &&& u.count_for_kitties == s.count_for_kitties
            &&& u.kitties == s.kitties
            &&& owned_of(u, b) == owned_of(s, b)
            &&& owned_of(u, a).to_multiset() == owned_of(s, a).to_multiset()
            &&& forall|c: AccountId| c != a && c != b ==> #[trigger] owned_of(u, c) == owned_of(s, c)
        }),
{
    broadcast use vstd::seq_lib::group_to_multiset_ensures, vstd::multiset::group_multiset_axioms;

    let t = transfer_outcome(s, a, b, dna).0;
    lemma_do_transfer_keeps_consistency(s, a, b, dna);
    lemma_transfer_moves_one_kitty(s, a, b, dna);
    let lf = owned_of(s, a);
    let lt = owned_of(s, b);
    lemma_first_index(lf, dna);
    let i = first_index(lf, dna);
    lemma_swap_removed(lf, i);
    assert(owned_of(t, a).len() == lf.len() - 1);
    let lt2 = owned_of(t, b);
    assert(lt2 == lt.push(dna));
    assert(lt2[lt.len() as int] == dna);
    assert(lt2.contains(dna));
    let u = transfer_outcome(t, b, a, dna).0;
    assert(!lt.contains(dna)) by {
        if lt.contains(dna) {
            let k = choose|k: int| 0 <= k < lt.len() && lt[k] == dna;
            assert(s.kitties[lt[k]].owner == b);
        }
    }
    lemma_first_index(lt2, dna);
    assert(first_index(lt2, dna) == lt.len()) by {
        let f = first_index(lt2, dna);
        if f < lt.len() {
            assert(lt[f] == lt2[f]);
        }
    }
    assert(swap_removed(lt2, lt.len() as int) =~= lt);
    assert(u.kitties =~= s.kitties);
    assert(owned_of(u, a) == owned_of(t, a).push(dna));
    assert(lf.to_multiset().count(dna) > 0) by {
        vstd::seq_lib::to_multiset_contains(lf, dna);
    }
    assert(owned_of(u, a).to_multiset() =~= lf.to_multiset());
}

/// What `mint(owner, dna)` does, for every storage: it succeeds exactly when the
/// DNA is not stored, the counter is below `u32::MAX` and the owner lists fewer
/// than one hundred kitties, and then reports the creation, counts one more
/// kitty, stores it under its DNA for `owner` and appends the DNA to the
/// owner's list, touching no other list. A stored DNA and a full counter are
/// refused with nothing written.
pub proof fn lemma_mint_behaviour(s: Storage, owner: AccountId, dna: Dna)
    ensures
        ({
            let (t, r) = mint_outcome(s, owner, dna);
            &&& (r is Ok <==> !s.kitties.contains_key(dna) && s.count_for_kitties < u32::MAX
                && owned_of(s, owner).len() < 100)
            &&& r is Ok ==> {
                &&& r == Ok::<Event, Error>(Event::Created { owner })
                &&& t.count_for_kitties == s.count_for_kitties + 1
                &&& t.kitties == s.kitties.insert(dna, Kitty { dna, owner })
                &&& owned_of(t, owner) == owned_of(s, owner).push(dna)
                &&& forall|a: AccountId| a != owner ==> #[trigger] owned_of(t, a) == owned_of(s, a)
            }
            &&& s.kitties.contains_key(dna) ==> r == Err::<Event, Error>(Error::DuplicatedKitty)
                && t == s
            &&& !s.kitties.contains_key(dna) && s.count_for_kitties == u32::MAX ==> r == Err::<
                Event,
                Error,
            >(Error::TooManyKitties) && t == s
            &&& !s.kitties.contains_key(dna) && s.count_for_kitties < u32::MAX && owned_of(
                s,
                owner,
            ).len() >= 100 ==> r == Err::<Event, Error>(Error::TooManyOwned)
        }),
{
}

/// What `do_transfer(from, to, dna)` does, for every storage: it succeeds
/// exactly when the two accounts differ, the kitty is stored, names `from` as
/// its owner and is listed by `from`, and the list of `to` holds fewer than one
/// hundred kitties; the counter plays no part. On success it reports the
/// transfer, keeps the counter and the set of kitties, records `to` as the
/// kitty's owner, appends the DNA to the list of `to` and takes one copy of it
/// out of the list of `from`, touching no other list. A refusal writes nothing.
pub proof fn lemma_do_transfer_behaviour(s: Storage, from: AccountId, to: AccountId, dna: Dna)
    ensures
        ({
            let (t, r) = transfer_outcome(s, from, to, dna);
            &&& (r is Ok <==> from != to && s.kitties.contains_key(dna) && s.kitties[dna].owner
                == from && owned_of(s, from).contains(dna) && owned_of(s, to).len() < 100)
            &&& r is Ok ==> {
                &&& r == Ok::<Event, Error>(Event::Transferred { from, to, kitty_id: dna })
                &&& t.count_for_kitties == s.count_for_kitties
                &&& t.kitties == s.kitties.insert(dna, Kitty { dna: s.kitties[dna].dna, owner: to })
                &&& owned_of(t, to) == owned_of(s, to).push(dna)
                &&& owned_of(t, from).len() + 1 == owned_of(s, from).len()
                &&& owned_of(t, from).to_multiset() == owned_of(s, from).to_multiset().remove(dna)
                &&& forall|a: AccountId|
                    a != from && a != to ==> #[trigger] owned_of(t, a) == owned_of(s, a)
            }
            &&& r is Err ==> t == s
            &&& from == to ==> r == Err::<Event, Error>(Error::TransferToSelf)
            &&& from != to && !s.kitties.contains_key(dna) ==> r == Err::<Event, Error>(
                Error::NoKitty,
            )
        }),
{
    let (t, r) = transfer_outcome(s, from, to, dna);
    if r is Ok {
        let lf = owned_of(s, from);
        lemma_first_index(lf, dna);
        let i = first_index(lf, dna);
        lemma_swap_removed(lf, i);
        lemma_swap_removed_multiset(lf, i);
    }
}

/// What the `transfer` call does: an origin that is not a signed account is
/// refused with `BadOrigin` and nothing written; a call signed by `from` gives
/// the result of `do_transfer(from, to, kitty_id)` (a refusal wrapped as the
/// pallet's error, with nothing written), so it succeeds exactly when
/// `from != to`, the kitty is stored, owned and listed by `from`, and the list
/// of `to` (empty or not) holds fewer than one hundred kitties.
pub proof fn lemma_transfer_call_behaviour(s: Storage, origin: Origin, to: AccountId, dna: Dna)
    ensures
        ({
            let (t, r) = transfer_call_outcome(s, origin, to, dna);
            &&& !(origin is Signed) ==> r == Err::<Event, DispatchError>(DispatchError::BadOrigin)
                && t == s
            &&& origin matches Origin::Signed(from) ==> {
                let (t1, r1) = transfer_outcome(s, from, to, dna);
                &&& (r is Ok <==> from != to && s.kitties.contains_key(dna) && s.kitties[dna].owner
                    == from && owned_of(s, from).contains(dna) && owned_of(s, to).len() < 100)
                &&& r is Ok ==> r == Ok::<Event, DispatchError>(
                    Event::Transferred { from, to, kitty_id: dna },
                ) && t == t1 && owned_of(t, to) == owned_of(s, to).push(dna)
                    && t.kitties[dna].owner == to
                &&& r1 matches Err(e) ==> r == Err::<Event, DispatchError>(
                    DispatchError::Module(e),
                ) && t == s
            }
        }),
{
    if let Origin::Signed(from) = origin {
        lemma_do_transfer_behaviour(s, from, to, dna);
    }
}

/// What the `create_kitty` call with new DNA `dna` does: an origin that is not
/// a signed account is refused with `BadOrigin` and nothing written; for a call
/// signed by `who` it succeeds exactly when the DNA is not stored, the counter
/// is below `u32::MAX` and `who` lists fewer than one hundred kitties, and then
/// counts one more kitty, stores it for `who` and appends its DNA to the list
/// of `who`; any refusal writes nothing.
pub proof fn lemma_create_kitty_behaviour(s: Storage, origin: Origin, dna: Dna)
    ensures
        ({
            let (t, r) = create_kitty_outcome(s, origin, dna);
            &&& !(origin is Signed) ==> r == Err::<Event, DispatchError>(DispatchError::BadOrigin)
                && t == s
            &&& origin matches Origin::Signed(who) ==> {
                &&& (r is Ok <==> !s.kitties.contains_key(dna) && s.count_for_kitties < u32::MAX
                    && owned_of(s, who).len() < 100)
                &&& r is Ok ==> {
                    &&& r == Ok::<Event, DispatchError>(Event::Created { owner: who })
                    &&& t.count_for_kitties == s.count_for_kitties + 1
                    &&& t.kitties == s.kitties.insert(dna, Kitty { dna, owner: who })
                    &&& owned_of(t, who) == owned_of(s, who).push(dna)
                    &&& forall|a: AccountId| a != who ==> #[trigger] owned_of(t, a) == owned_of(s, a)
                }
                &&& r is Err ==> t == s
                &&& s.kitties.contains_key(dna) ==> r == Err::<Event, DispatchError>(
                    DispatchError::Module(Error::DuplicatedKitty),
                )
            }
        }),
{
    if let Origin::Signed(who) = origin {
        lemma_mint_behaviour(s, who, dna);
    }
}

/// The DNA that `create_kitty` gives a new kitty is the hash of the block's
/// parent hash, number and extrinsic index together with the counter itself,
/// taken whole (whenever that hash is 32 bytes long, as the hash of
/// `gen_dna` is).
pub proof fn lemma_new_dna_is_hash_of_counter(block: BlockContext, count: u32)
    requires
        exists|d: Dna|
            #[trigger] d@ == payload_hash(
                block.parent_hash@,
                block.block_number,
                block.extrinsic_index,
                count,
            ),
    ensures
        new_dna(block, count)@ == payload_hash(
            block.parent_hash@,
            block.block_number,
            block.extrinsic_index,
            count,
        ),
{
}

} // verus!
