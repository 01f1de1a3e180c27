use kitties::dna::{combine, combine_dna, Kitty};
use kitties::genealogy::{derive_siblings, KittyData};
use kitties::pallet::{Event, KittyError, Lock, Module, Outcome};
use kitties::randomness::{random_value, Entropy};

const STAKING: u64 = 100;

/// Free balances of the test accounts: 1 and 2 can stake, 3 cannot.
fn free_balance(who: u64) -> u64 {
    match who {
        1 => 10_000,
        2 => 10_000,
        _ => 50,
    }
}

fn entropy(block: u8) -> Entropy {
    Entropy { random_seed: [block; 32], extrinsic_index: Some(1) }
}

fn create(m: &mut Module, who: u64) -> Result<Outcome, KittyError> {
    m.create(who, free_balance(who), &entropy(10))
}

fn transfer(m: &mut Module, who: u64, to: u64, id: u32) -> Result<Outcome, KittyError> {
    m.transfer(who, to, id, free_balance(to))
}

fn breed(m: &mut Module, who: u64, a: u32, b: u32) -> Result<Outcome, KittyError> {
    m.breed(who, a, b, free_balance(who), &entropy(100))
}

/// What a rejected command must leave as it was.
fn snapshot(m: &Module) -> (u32, Vec<Option<u64>>, Vec<u64>, Vec<Vec<u32>>) {
    let owners = (0..4).map(|id| m.kitty_owner(id)).collect();
    let stakes = (1..4).map(|who| m.staking_data(who)).collect();
    let lists = (1..4).map(|who| m.get_kitties(who)).collect();
    (m.kitties_count(), owners, stakes, lists)
}

fn err<T>(r: Result<T, KittyError>) -> Option<KittyError> {
    match r {
        Ok(_) => None,
        Err(e) => Some(e),
    }
}

#[test]
fn owned_kitties_can_append_values() {
    let mut m = Module::new(STAKING);
    assert!(create(&mut m, 1).is_ok());
}

#[test]
fn create_failed_with_insufficient_funds() {
    let mut m = Module::new(STAKING);
    let before = snapshot(&m);
    assert_eq!(err(create(&mut m, 3)), Some(KittyError::InsufficientFunds));
    assert_eq!(snapshot(&m), before);
}

#[test]
fn transfer_success() {
    let mut m = Module::new(STAKING);
    let _ = create(&mut m, 1);
    assert!(transfer(&mut m, 1, 2, 0).is_ok());
}

#[test]
fn transfer_failed_with_invaid_id() {
    let mut m = Module::new(STAKING);
    let _ = create(&mut m, 1);
    let before = snapshot(&m);
    assert_eq!(err(transfer(&mut m, 1, 2, 1)), Some(KittyError::InvalidKittyId));
    assert_eq!(snapshot(&m), before);
}

#[test]
fn transfer_failed_with_not_the_owner() {
    let mut m = Module::new(STAKING);
    let _ = create(&mut m, 1);
    let before = snapshot(&m);
    assert_eq!(err(transfer(&mut m, 2, 3, 0)), Some(KittyError::RequireOwner));
    assert_eq!(snapshot(&m), before);
}

#[test]
fn transfer_failed_with_insufficient_funds() {
    let mut m = Module::new(STAKING);
    let _ = create(&mut m, 1);
    let before = snapshot(&m);
    assert_eq!(err(transfer(&mut m, 1, 3, 0)), Some(KittyError::InsufficientFunds));
    assert_eq!(snapshot(&m), before);
}

#[test]
fn breed_success() {
    let mut m = Module::new(STAKING);
    let _ = create(&mut m, 1);
    let _ = create(&mut m, 2);
    assert!(breed(&mut m, 1, 0, 1).is_ok());
}

#[test]
fn breed_failed_insufficient_funds() {
    let mut m = Module::new(STAKING);
    let _ = create(&mut m, 1);
    let _ = create(&mut m, 2);
    let before = snapshot(&m);
    assert_eq!(err(breed(&mut m, 3, 0, 1)), Some(KittyError::InsufficientFunds));
    assert_eq!(snapshot(&m), before);
}

#[test]
fn breed_failed_with_invalid_id() {
    let mut m = Module::new(STAKING);
    let _ = create(&mut m, 1);
    let _ = create(&mut m, 2);
    let before = snapshot(&m);
    assert_eq!(err(breed(&mut m, 1, 0, 3)), Some(KittyError::InvalidKittyId));
    assert_eq!(snapshot(&m), before);
}

#[test]
fn breed_failed_with_same_parent() {
    let mut m = Module::new(STAKING);
    let _ = create(&mut m, 1);
    let _ = create(&mut m, 2);
    let before = snapshot(&m);
    assert_eq!(err(breed(&mut m, 1, 0, 0)), Some(KittyError::RequireDifferentParent));
    assert_eq!(snapshot(&m), before);
}

#[test]
fn create_counts_owns_lists_and_stakes() {
    let mut m = Module::new(STAKING);
    let out = create(&mut m, 1).unwrap();
    assert_eq!(out.event, Event::Created(1, 0));
    assert_eq!(out.locks, vec![Lock { account: 1, amount: 100 }]);
    assert_eq!(m.kitties_count(), 1);
    assert_eq!(m.kitty_owner(0), Some(1));
    assert_eq!(m.get_kitties(1), vec![0]);
    assert_eq!(m.staking_data(1), 100);
    let out = create(&mut m, 1).unwrap();
    assert_eq!(out.locks, vec![Lock { account: 1, amount: 200 }]);
    assert_eq!(m.get_kitties(1), vec![0, 1]);
    assert_eq!(m.staking_data(1), 200);
}

#[test]
fn create_payload_is_the_digest_of_the_encoded_entropy() {
    let mut m = Module::new(STAKING);
    let e = Entropy { random_seed: [1; 32], extrinsic_index: Some(2) };
    m.create(1, 1000, &e).unwrap();
    let expected = [24, 185, 12, 127, 184, 108, 156, 48, 28, 62, 162, 30, 251, 38, 240, 60];
    assert_eq!(m.kitties(0), Some(Kitty(expected)));
}

#[test]
fn random_value_without_extrinsic_index() {
    let e = Entropy { random_seed: [1; 32], extrinsic_index: None };
    let expected = [236, 205, 240, 231, 153, 182, 56, 48, 93, 4, 18, 148, 177, 0, 160, 228];
    assert_eq!(random_value(&e, 1), expected);
}

#[test]
fn combine_dna_takes_selected_bits_from_first_parent() {
    assert_eq!(combine_dna(0xF0, 0x0F, 0xCC), 0xC3);
    assert_eq!(combine_dna(0xAB, 0x12, 0xFF), 0xAB);
    assert_eq!(combine_dna(0xAB, 0x12, 0x00), 0x12);
}

#[test]
fn breed_payload_follows_the_selector() {
    let mut m = Module::new(STAKING);
    m.create_with_dna(1, 1000, [0xF0; 16]).unwrap();
    m.create_with_dna(1, 1000, [0x0F; 16]).unwrap();
    let mut selector = [0xCC; 16];
    selector[3] = 0xFF;
    let out = m.breed_with_selector(1, 0, 1, 1000, selector).unwrap();
    assert_eq!(out.event, Event::Breeded(1, 0, 1, 2));
    let mut expected = [0xC3; 16];
    expected[3] = 0xF0;
    assert_eq!(m.kitties(2), Some(Kitty(expected)));
    // swapping the parents swaps which bits come from which
    let out = m.breed_with_selector(1, 1, 0, 1000, [0xCC; 16]).unwrap();
    assert_eq!(out.event, Event::Breeded(1, 1, 0, 3));
    assert_eq!(m.kitties(3), Some(Kitty([0x3C; 16])));
    let d = m.get_kitty_data(3).unwrap();
    assert_eq!((d.parent_one, d.parent_two), (Some(0), Some(1)));
}

#[test]
fn combine_applies_one_selector_to_every_byte() {
    let a = [0xFF; 16];
    let b = [0x00; 16];
    let mut s = [0u8; 16];
    for (i, x) in s.iter_mut().enumerate() {
        *x = i as u8;
    }
    assert_eq!(combine(&a, &b, &s), s);
}

#[test]
fn two_creates_give_distinct_ids() {
    let mut m = Module::new(STAKING);
    let a = create(&mut m, 1).unwrap();
    let b = create(&mut m, 1).unwrap();
    assert_eq!(a.event, Event::Created(1, 0));
    assert_eq!(b.event, Event::Created(1, 1));
}

#[test]
fn transfer_back_restores_the_owner() {
    let mut m = Module::new(STAKING);
    let _ = create(&mut m, 1);
    let out = transfer(&mut m, 1, 2, 0).unwrap();
    assert_eq!(out.event, Event::Transferred(1, 2, 0));
    assert_eq!(
        out.locks,
        vec![Lock { account: 2, amount: 100 }, Lock { account: 1, amount: 0 }]
    );
    assert_eq!(m.kitty_owner(0), Some(2));
    transfer(&mut m, 2, 1, 0).unwrap();
    assert_eq!(m.kitty_owner(0), Some(1));
    assert_eq!(m.staking_data(1), 100);
    assert_eq!(m.staking_data(2), 0);
    // the owned lists are not touched by a transfer
    assert_eq!(m.get_kitties(1), vec![0]);
    assert_eq!(m.get_kitties(2), Vec::<u32>::new());
}

#[test]
fn transfer_release_does_not_go_below_zero() {
    let mut m = Module::new(STAKING);
    m.create_with_dna(1, 1000, [1; 16]).unwrap();
    transfer(&mut m, 1, 2, 0).unwrap();
    transfer(&mut m, 2, 1, 0).unwrap();
    transfer(&mut m, 1, 2, 0).unwrap();
    assert_eq!(m.staking_data(1), 0);
    assert_eq!(m.staking_data(2), 100);
}

#[test]
fn transfer_to_oneself_keeps_the_stake() {
    let mut m = Module::new(STAKING);
    let _ = create(&mut m, 1);
    let out = transfer(&mut m, 1, 1, 0).unwrap();
    assert_eq!(
        out.locks,
        vec![Lock { account: 1, amount: 200 }, Lock { account: 1, amount: 100 }]
    );
    assert_eq!(m.staking_data(1), 100);
}

#[test]
fn breeding_twice_gives_distinct_children_with_one_parent_pair() {
    let mut m = Module::new(STAKING);
    let _ = create(&mut m, 1);
    let _ = create(&mut m, 2);
    let a = m.breed(1, 1, 0, 10_000, &entropy(7)).unwrap();
    let b = m.breed(1, 1, 0, 10_000, &entropy(8)).unwrap();
    assert_eq!(a.event, Event::Breeded(1, 1, 0, 2));
    assert_eq!(b.event, Event::Breeded(1, 1, 0, 3));
    for id in [2u32, 3] {
        let d = m.get_kitty_data(id).unwrap();
        assert_eq!(d.parent_one, Some(0));
        assert_eq!(d.parent_two, Some(1));
    }
    let p = m.get_kitty_data(0).unwrap();
    assert_eq!(p.children, vec![2, 3]);
    assert_eq!(p.breeds, vec![1]);
    let q = m.get_kitty_data(1).unwrap();
    assert_eq!(q.children, vec![2, 3]);
    assert_eq!(q.breeds, vec![0]);
    assert_eq!(m.get_kitties(1), vec![0, 2, 3]);
    assert_eq!(m.staking_data(1), 300);
}

#[test]
fn scenario_create_fail_breed_same_and_transfer_not_owner() {
    let mut m = Module::new(STAKING);
    let out = create(&mut m, 1).unwrap();
    assert_eq!(out.event, Event::Created(1, 0));
    assert_eq!(m.kitty_owner(0), Some(1));
    assert_eq!(err(m.create(4, 0, &entropy(1))), Some(KittyError::InsufficientFunds));
    assert_eq!(m.kitties_count(), 1);
    assert_eq!(err(breed(&mut m, 1, 0, 0)), Some(KittyError::RequireDifferentParent));
    transfer(&mut m, 1, 2, 0).unwrap();
    assert_eq!(err(transfer(&mut m, 1, 5, 0)), Some(KittyError::RequireOwner));
    assert_eq!(m.kitty_owner(0), Some(2));
}

#[test]
fn genealogy_of_a_minted_kitty_is_the_empty_record() {
    let mut m = Module::new(STAKING);
    let _ = create(&mut m, 1);
    let d = m.get_kitty_data(0).unwrap();
    assert_eq!(d.parent_one, None);
    assert_eq!(d.parent_two, None);
    assert!(d.brothers.is_empty() && d.children.is_empty() && d.breeds.is_empty());
    assert!(m.get_kitty_data(9).is_none());
}

#[test]
fn default_record_is_empty() {
    let d = KittyData::default();
    assert_eq!(d.parent_one, None);
    assert_eq!(d.parent_two, None);
    assert!(d.brothers.is_empty() && d.children.is_empty() && d.breeds.is_empty());
}

#[test]
fn siblings_repeat_for_each_unequal_pair() {
    let mut m = Module::new(STAKING);
    let _ = create(&mut m, 1);
    let _ = create(&mut m, 2);
    breed(&mut m, 1, 0, 1).unwrap();
    breed(&mut m, 1, 0, 1).unwrap();
    assert_eq!(m.get_kitty_data(2).unwrap().brothers, vec![3, 3]);
    assert_eq!(m.get_kitty_data(3).unwrap().brothers, vec![2, 2]);
    assert_eq!(m.get_kitty_data(0).unwrap().brothers, Vec::<u32>::new());
}

#[test]
fn derive_siblings_keeps_order_and_drops_self() {
    assert_eq!(derive_siblings(&vec![4, 5], &vec![5, 6], 5), vec![4, 6, 6]);
    assert_eq!(derive_siblings(&vec![], &vec![7], 1), Vec::<u32>::new());
    assert_eq!(derive_siblings(&vec![7], &vec![], 1), vec![7]);
}

#[test]
fn add_breeds_does_not_repeat_partners() {
    let mut m = Module::new(STAKING);
    m.add_breeds(4, 9);
    m.add_breeds(9, 4);
    m.add_children(4, 11);
    m.add_children(4, 11);
    let d = m.get_kitty_data(4).unwrap();
    assert_eq!(d.breeds, vec![9]);
    assert_eq!(d.children, vec![11, 11]);
    assert_eq!(m.get_kitty_data(9).unwrap().breeds, vec![4]);
    let mut k = KittyData::default();
    k.add_breeds(3);
    k.add_breeds(3);
    k.add_brother(8);
    k.add_children(2);
    assert_eq!((k.breeds, k.brothers, k.children), (vec![3], vec![8], vec![2]));
}

#[test]
fn create_kitty_data_orders_parents() {
    let mut m = Module::new(STAKING);
    m.create_kitty_data(5, 9, 2);
    let d = m.get_kitty_data(5).unwrap();
    assert_eq!((d.parent_one, d.parent_two), (Some(2), Some(9)));
}

#[test]
fn del_from_kitties_list_removes_and_drops_empty_lists() {
    let mut m = Module::new(STAKING);
    let _ = create(&mut m, 1);
    let _ = create(&mut m, 1);
    assert_eq!(m.del_from_kitties_list(2, 0), Err(KittyError::KittyMustBeInclude));
    assert_eq!(m.del_from_kitties_list(1, 7), Err(KittyError::KittyMustBeInclude));
    assert_eq!(m.del_from_kitties_list(1, 0), Ok(()));
    assert_eq!(m.get_kitties(1), vec![1]);
    assert_eq!(m.del_from_kitties_list(1, 1), Ok(()));
    assert_eq!(m.get_kitties(1), Vec::<u32>::new());
    assert_eq!(m.del_from_kitties_list(1, 1), Err(KittyError::KittyMustBeInclude));
}

#[test]
fn next_kitty_id_is_the_count() {
    let mut m = Module::new(STAKING);
    assert_eq!(m.next_kitty_id(), Ok(0));
    let _ = create(&mut m, 2);
    assert_eq!(m.next_kitty_id(), Ok(1));
    assert_eq!(m.kitties(1), None);
    assert_eq!(m.kitty_owner(1), None);
    assert_eq!(m.staking(), STAKING);
}
