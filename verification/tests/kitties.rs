use pallet_kitties::owned::OwnedList;
use pallet_kitties::pallet::{position_of, Pallet};
use pallet_kitties::types::{BlockContext, DispatchError, Dna, Error, Event, Kitty, Origin};
use polkadot_sdk_frame::primitives::H256;
use polkadot_sdk_frame::primitives::BlakeTwo256;

const ALICE: u64 = 1;
const BOB: u64 = 2;

const DEFAULT_KITTY: Kitty = Kitty { dna: [0u8; 32], owner: 0 };

/// The storage of a fresh test chain: nothing counted, stored or owned.
fn new_test_ext() -> Pallet {
    Pallet::new()
}

/// The block of a fresh test chain: block zero, a zero parent hash, no extrinsic.
fn genesis_block() -> BlockContext {
    BlockContext { parent_hash: [0u8; 32], block_number: 0, extrinsic_index: None }
}

/// The same chain after `System::set_block_number(1)`.
fn block_one() -> BlockContext {
    BlockContext { parent_hash: [0u8; 32], block_number: 1, extrinsic_index: None }
}

fn owned(p: &Pallet, who: u64) -> Vec<Dna> {
    p.kitties_owned(who).to_vec()
}

fn dna(byte: u8) -> Dna {
    [byte; 32]
}

#[test]
fn starting_template_is_sane() {
    let mut p = new_test_ext();
    let result = p.create_kitty(Origin::Signed(BOB), &genesis_block());
    assert!(result.is_ok());
}

#[test]
fn create_kitty_checks_signed() {
    let mut p = new_test_ext();
    assert!(p.create_kitty(Origin::Signed(ALICE), &genesis_block()).is_ok());

    let count = p.count_for_kitties();
    let kitties = p.kitties_count();
    assert_eq!(p.create_kitty(Origin::Unsigned, &genesis_block()), Err(DispatchError::BadOrigin));
    assert_eq!(p.count_for_kitties(), count);
    assert_eq!(p.kitties_count(), kitties);
}

#[test]
fn create_kitty_emits_event() {
    let mut p = new_test_ext();
    let result = p.create_kitty(Origin::Signed(ALICE), &block_one());
    assert_eq!(result, Ok(Event::Created { owner: 1 }));
}

#[test]
fn count_for_kitties_created_correctly() {
    let mut p = new_test_ext();
    assert_eq!(p.count_for_kitties(), u32::default());

    p.set_count_for_kitties(1337u32);
    assert_eq!(p.count_for_kitties(), 1337u32);
    p.set_count_for_kitties(1336u32);

    assert_ne!(p.count_for_kitties(), 1337u32);
    assert_eq!(p.count_for_kitties(), 1336u32);
}

#[test]
fn mint_increment_counter() {
    let mut p = new_test_ext();
    assert_eq!(p.count_for_kitties(), u32::default());
    assert!(p.create_kitty(Origin::Signed(ALICE), &block_one()).is_ok());
    assert_eq!(p.count_for_kitties(), 1);
}

#[test]
fn mint_error_on_overflow() {
    let mut p = new_test_ext();
    p.set_count_for_kitties(u32::MAX);
    assert_eq!(
        p.create_kitty(Origin::Signed(ALICE), &genesis_block()),
        Err(DispatchError::Module(Error::TooManyKitties))
    );
    assert_eq!(p.count_for_kitties(), u32::MAX);
    assert_eq!(p.kitties_count(), 0);
    assert!(owned(&p, ALICE).is_empty());
}

#[test]
fn kitties_map_created_correctly() {
    let mut p = new_test_ext();
    let zero_key = [0u8; 32];
    assert!(!p.contains_kitty(&zero_key));
    p.insert_kitty(zero_key, DEFAULT_KITTY);
    assert!(p.contains_kitty(&zero_key));
}

#[test]
fn create_kitty_adds_to_map() {
    let mut p = new_test_ext();
    assert!(p.create_kitty(Origin::Signed(ALICE), &genesis_block()).is_ok());
    assert_eq!(p.kitties_count(), 1);
}

#[test]
fn raise_error_on_duplicated() {
    let mut p = new_test_ext();
    assert!(p.mint(ALICE, [0u8; 32]).is_ok());
    assert_eq!(p.kitties_count(), 1);

    assert_eq!(p.mint(BOB, [0u8; 32]), Err(Error::DuplicatedKitty));
    assert_eq!(p.kitties_count(), 1);
    assert_eq!(p.count_for_kitties(), 1);
    assert_eq!(p.kitty(&[0u8; 32]), Some(Kitty { dna: [0u8; 32], owner: ALICE }));
    assert!(owned(&p, BOB).is_empty());
}

#[test]
fn mint_stores_owner_in_kitty() {
    let mut p = new_test_ext();
    assert!(p.mint(1337, [42u8; 32]).is_ok());
    let kitty = p.kitty(&[42u8; 32]).unwrap();
    assert_eq!(kitty.owner, 1337);
    assert_eq!(kitty.dna, [42u8; 32]);
}

#[test]
fn create_kitty_unique() {
    let mut p = new_test_ext();
    assert!(p.create_kitty(Origin::Signed(ALICE), &genesis_block()).is_ok());
    assert!(p.create_kitty(Origin::Signed(BOB), &genesis_block()).is_ok());

    assert_eq!(p.count_for_kitties(), 2);
    assert_eq!(p.kitties_count(), 2);
}

#[test]
fn kitties_owned_creation() {
    let mut p = new_test_ext();
    assert_eq!(p.kitties_owned(ALICE).len(), 0);
    assert!(p.create_kitty(Origin::Signed(ALICE), &genesis_block()).is_ok());
    assert!(p.create_kitty(Origin::Signed(ALICE), &genesis_block()).is_ok());
    assert_eq!(p.kitties_owned(ALICE).len(), 2);
}

#[test]
fn gen_dna_hashes_block_and_counter() {
    let mut p = new_test_ext();
    let block = BlockContext { parent_hash: [7u8; 32], block_number: 5, extrinsic_index: Some(3) };
    p.set_count_for_kitties(9);
    let expected: [u8; 32] = <BlakeTwo256 as polkadot_sdk_frame::primitives::Hash>::hash_of(&(
        H256::from([7u8; 32]),
        5u64,
        Some(3u32),
        9u32,
    ))
    .into();
    assert_eq!(p.gen_dna(&block), expected);
    assert_ne!(p.gen_dna(&block), block.parent_hash);
    p.set_count_for_kitties(10);
    assert_ne!(p.gen_dna(&block), expected);
}

#[test]
fn create_kitty_uses_generated_dna() {
    let mut p = new_test_ext();
    let block = block_one();
    let expected = p.gen_dna(&block);
    assert!(p.create_kitty(Origin::Signed(ALICE), &block).is_ok());
    assert_eq!(p.kitty(&expected), Some(Kitty { dna: expected, owner: ALICE }));
    assert_eq!(owned(&p, ALICE), vec![expected]);
}

#[test]
fn mint_appends_to_owner_list() {
    let mut p = new_test_ext();
    assert_eq!(p.mint(ALICE, dna(1)), Ok(Event::Created { owner: ALICE }));
    assert_eq!(p.mint(ALICE, dna(2)), Ok(Event::Created { owner: ALICE }));
    assert_eq!(p.mint(BOB, dna(3)), Ok(Event::Created { owner: BOB }));
    assert_eq!(owned(&p, ALICE), vec![dna(1), dna(2)]);
    assert_eq!(owned(&p, BOB), vec![dna(3)]);
    assert_eq!(p.count_for_kitties(), 3);
}

#[test]
fn mint_error_too_many_kitties() {
    let mut p = new_test_ext();
    p.set_count_for_kitties(u32::MAX);
    assert_eq!(p.mint(ALICE, dna(1)), Err(Error::TooManyKitties));
    assert!(!p.contains_kitty(&dna(1)));
}

#[test]
fn mint_error_too_many_owned_keeps_earlier_writes() {
    let mut p = new_test_ext();
    for i in 0..100u8 {
        assert!(p.mint(ALICE, dna(i)).is_ok());
    }
    assert_eq!(p.kitties_owned(ALICE).len(), 100);
    assert_eq!(p.mint(ALICE, dna(200)), Err(Error::TooManyOwned));
    // Called directly, `mint` has already counted and stored the kitty.
    assert_eq!(p.count_for_kitties(), 101);
    assert!(p.contains_kitty(&dna(200)));
    assert_eq!(p.kitties_owned(ALICE).len(), 100);
}

#[test]
fn create_kitty_too_many_owned_changes_nothing() {
    let mut p = new_test_ext();
    for i in 0..100u8 {
        assert!(p.mint(ALICE, dna(i)).is_ok());
    }
    let block = block_one();
    let next = p.gen_dna(&block);
    assert_eq!(
        p.create_kitty(Origin::Signed(ALICE), &block),
        Err(DispatchError::Module(Error::TooManyOwned))
    );
    assert_eq!(p.count_for_kitties(), 100);
    assert_eq!(p.kitties_count(), 100);
    assert!(!p.contains_kitty(&next));
    assert_eq!(p.kitties_owned(ALICE).len(), 100);
}

#[test]
fn transfer_moves_kitty() {
    let mut p = new_test_ext();
    assert!(p.mint(ALICE, dna(1)).is_ok());
    assert!(p.mint(ALICE, dna(2)).is_ok());
    assert!(p.mint(ALICE, dna(3)).is_ok());
    assert!(p.mint(BOB, dna(4)).is_ok());
    assert_eq!(
        p.transfer(Origin::Signed(ALICE), BOB, dna(1)),
        Ok(Event::Transferred { from: ALICE, to: BOB, kitty_id: dna(1) })
    );
    // The last entry of the sender's list takes the place of the one removed.
    assert_eq!(owned(&p, ALICE), vec![dna(3), dna(2)]);
    assert_eq!(owned(&p, BOB), vec![dna(4), dna(1)]);
    assert_eq!(p.kitty(&dna(1)), Some(Kitty { dna: dna(1), owner: BOB }));
    assert_eq!(p.count_for_kitties(), 4);
    assert_eq!(p.kitties_count(), 4);
}

#[test]
fn transfer_round_trip_returns_kitty() {
    let mut p = new_test_ext();
    assert!(p.mint(ALICE, dna(1)).is_ok());
    assert!(p.mint(ALICE, dna(2)).is_ok());
    assert!(p.do_transfer(ALICE, BOB, dna(1)).is_ok());
    assert!(p.do_transfer(BOB, ALICE, dna(1)).is_ok());
    assert_eq!(p.kitty(&dna(1)), Some(Kitty { dna: dna(1), owner: ALICE }));
    assert_eq!(owned(&p, ALICE), vec![dna(2), dna(1)]);
    assert!(owned(&p, BOB).is_empty());
    assert_eq!(p.count_for_kitties(), 2);
}

#[test]
fn transfer_errors() {
    let mut p = new_test_ext();
    assert!(p.mint(ALICE, dna(1)).is_ok());

    assert_eq!(p.do_transfer(ALICE, ALICE, dna(1)), Err(Error::TransferToSelf));
    assert_eq!(p.do_transfer(ALICE, BOB, dna(9)), Err(Error::NoKitty));
    assert_eq!(p.do_transfer(BOB, ALICE, dna(1)), Err(Error::NotOwner));
    assert_eq!(p.transfer(Origin::Root, BOB, dna(1)), Err(DispatchError::BadOrigin));
    assert_eq!(p.transfer(Origin::Unsigned, BOB, dna(1)), Err(DispatchError::BadOrigin));
    assert_eq!(
        p.transfer(Origin::Signed(BOB), ALICE, dna(1)),
        Err(DispatchError::Module(Error::NotOwner))
    );

    // A kitty that names ALICE as owner but is missing from her list.
    p.insert_kitty(dna(5), Kitty { dna: dna(5), owner: ALICE });
    assert_eq!(p.do_transfer(ALICE, BOB, dna(5)), Err(Error::NotOwner));

    assert_eq!(p.kitty(&dna(1)), Some(Kitty { dna: dna(1), owner: ALICE }));
    assert_eq!(owned(&p, ALICE), vec![dna(1)]);
    assert!(owned(&p, BOB).is_empty());
}

#[test]
fn transfer_error_too_many_owned() {
    let mut p = new_test_ext();
    for i in 0..100u8 {
        assert!(p.mint(BOB, dna(i)).is_ok());
    }
    assert!(p.mint(ALICE, dna(200)).is_ok());
    assert_eq!(p.do_transfer(ALICE, BOB, dna(200)), Err(Error::TooManyOwned));
    assert_eq!(p.kitty(&dna(200)), Some(Kitty { dna: dna(200), owner: ALICE }));
    assert_eq!(owned(&p, ALICE), vec![dna(200)]);
    assert_eq!(p.kitties_owned(BOB).len(), 100);
}

#[test]
fn insert_kitties_owned_stores_list() {
    let mut p = new_test_ext();
    let list: OwnedList = vec![dna(1), dna(2)].try_into().unwrap();
    p.insert_kitties_owned(ALICE, list);
    assert_eq!(owned(&p, ALICE), vec![dna(1), dna(2)]);
    assert!(owned(&p, BOB).is_empty());
}

#[test]
fn kitties_count_counts_distinct_dnas() {
    let mut p = new_test_ext();
    p.insert_kitty(dna(1), DEFAULT_KITTY);
    p.insert_kitty(dna(1), Kitty { dna: dna(1), owner: BOB });
    p.insert_kitty(dna(2), DEFAULT_KITTY);
    assert_eq!(p.kitties_count(), 2);
    assert_eq!(p.kitty(&dna(1)), Some(Kitty { dna: dna(1), owner: BOB }));
    assert_eq!(p.kitty(&dna(3)), None);
}

#[test]
fn ensure_signed_returns_signer() {
    assert_eq!(pallet_kitties::types::ensure_signed(Origin::Signed(7)), Ok(7));
    assert_eq!(pallet_kitties::types::ensure_signed(Origin::Root), Err(DispatchError::BadOrigin));
    assert_eq!(
        pallet_kitties::types::ensure_signed(Origin::Unsigned),
        Err(DispatchError::BadOrigin)
    );
}

#[test]
fn calls_keep_storage_consistent() {
    let mut p = new_test_ext();
    let block = block_one();
    assert!(p.create_kitty(Origin::Signed(ALICE), &block).is_ok());
    assert!(p.create_kitty(Origin::Signed(ALICE), &block).is_ok());
    assert!(p.create_kitty(Origin::Signed(BOB), &block).is_ok());
    let first = owned(&p, ALICE)[0];
    assert!(p.transfer(Origin::Signed(ALICE), BOB, first).is_ok());
    assert!(p.transfer(Origin::Signed(ALICE), ALICE, first).is_err());
    assert!(p.create_kitty(Origin::Unsigned, &block).is_err());

    assert_eq!(p.count_for_kitties() as usize, p.kitties_count());
    for who in [ALICE, BOB] {
        let list = owned(&p, who);
        for (i, d) in list.iter().enumerate() {
            assert_eq!(p.kitty(d), Some(Kitty { dna: *d, owner: who }));
            assert!(!list[i + 1..].contains(d));
        }
    }
    assert_eq!(owned(&p, ALICE).len() + owned(&p, BOB).len(), p.kitties_count());
}

#[test]
fn position_of_finds_first_occurrence() {
    let list: OwnedList = vec![dna(1), dna(2), dna(1)].try_into().unwrap();
    assert_eq!(position_of(&list, &dna(1)), Some(0));
    assert_eq!(position_of(&list, &dna(2)), Some(1));
    assert_eq!(position_of(&list, &dna(3)), None);
}

#[test]
fn kitties_owned_returns_a_copy() {
    let mut p = new_test_ext();
    assert!(p.mint(ALICE, dna(1)).is_ok());
    let mut list = p.kitties_owned(ALICE);
    assert!(list.try_push(dna(9)).is_ok());
    assert_eq!(list.len(), 2);
    assert_eq!(owned(&p, ALICE), vec![dna(1)]);
}
