use kitties::{
    combine_dna, combine_genomes, random_value, CallContext, DepositLedger, KittyError,
    KittyEvent, MemoryLedger, Module,
};

const RESERVE: u64 = 1_000;

fn context(seed: u8, index: Option<u32>) -> CallContext {
    CallContext {
        random_seed: [seed; 32],
        extrinsic_index: index,
    }
}

fn funded(accounts: &[u64]) -> (Module, MemoryLedger) {
    let mut l = MemoryLedger::new();
    for a in accounts {
        assert!(l.deposit_creating(*a, 10_000));
    }
    (Module::new(RESERVE), l)
}

/// Checks that each account's index lists exactly the kitties it owns.
fn assert_index_in_sync(m: &Module, accounts: &[u64]) {
    for a in accounts {
        let mut listed = m.owned_kitties(*a);
        listed.sort();
        let mut expected: Vec<u32> = (0..m.kitties_count())
            .filter(|id| m.kitty_owner(*id) == Some(*a))
            .collect();
        expected.sort();
        assert_eq!(listed, expected);
    }
}

#[test]
fn combine_dna_exhaustive_table() {
    for a in 0..=255u8 {
        for b in 0..=255u8 {
            for s in 0..=255u8 {
                assert_eq!(combine_dna(a, b, s), (s & a) | (!s & b));
            }
        }
    }
}

#[test]
fn combine_dna_exact_values() {
    assert_eq!(combine_dna(0b1111_0000, 0b0000_1111, 0b1010_1010), 0b1010_0101);
    assert_eq!(combine_dna(0xff, 0x00, 0x0f), 0x0f);
    assert_eq!(combine_dna(0x12, 0x34, 0xff), 0x12);
    assert_eq!(combine_dna(0x12, 0x34, 0x00), 0x34);
}

#[test]
fn combine_genomes_mixes_each_position() {
    let mut a = [0u8; 16];
    let mut b = [0u8; 16];
    let mut s = [0u8; 16];
    for i in 0..16 {
        a[i] = i as u8;
        b[i] = 0xf0 | i as u8;
        s[i] = (i as u8) * 17;
    }
    let r = combine_genomes(&a, &b, &s);
    for i in 0..16 {
        assert_eq!(r[i], (s[i] & a[i]) | (!s[i] & b[i]));
    }
    assert_eq!(combine_genomes(&a, &b, &[0xff; 16]), a);
    assert_eq!(combine_genomes(&a, &b, &[0x00; 16]), b);
}

#[test]
fn random_value_hashes_the_encoded_context() {
    let seed = [3u8; 32];
    let mut payload: Vec<u8> = seed.to_vec();
    payload.extend_from_slice(&42u64.to_le_bytes());
    payload.push(1);
    payload.extend_from_slice(&5u32.to_le_bytes());
    let expected = sp_io::hashing::blake2_128(&payload);
    assert_eq!(random_value(&seed, 42, Some(5)), expected);

    let mut payload_none: Vec<u8> = seed.to_vec();
    payload_none.extend_from_slice(&42u64.to_le_bytes());
    payload_none.push(0);
    assert_eq!(random_value(&seed, 42, None), sp_io::hashing::blake2_128(&payload_none));
    assert_ne!(random_value(&seed, 42, None), random_value(&seed, 43, None));
}

#[test]
fn created_kitty_takes_the_drawn_genome() {
    let (mut m, mut l) = funded(&[9]);
    let c = context(11, Some(2));
    assert_eq!(m.create(&mut l, 9, &c), Ok(0));
    let expected = random_value(&c.random_seed, 9, c.extrinsic_index);
    assert_eq!(m.kitties(0).map(|k| k.0), Some(expected));
    assert_eq!(m.kitties(1), None);
}

#[test]
fn bred_kitty_mixes_parent_genomes() {
    let (mut m, mut l) = funded(&[1, 2]);
    let _ = m.create(&mut l, 1, &context(1, Some(0)));
    let _ = m.create(&mut l, 2, &context(2, Some(0)));
    let c = context(3, Some(4));
    assert_eq!(m.breed(&mut l, 1, 0, 1, &c), Ok(2));
    let g0 = m.kitties(0).unwrap().0;
    let g1 = m.kitties(1).unwrap().0;
    let selector = random_value(&c.random_seed, 1, c.extrinsic_index);
    assert_eq!(m.kitties(2).unwrap().0, combine_genomes(&g0, &g1, &selector));
}

#[test]
fn first_create_returns_id_zero() {
    let (mut m, mut l) = funded(&[10]);
    assert_eq!(m.create(&mut l, 10, &context(0, None)), Ok(0));
    assert_eq!(m.kitty_owner(0), Some(10));
    assert_eq!(m.owned_kitties(10), vec![0]);
    assert_eq!(m.kitties_count(), 1);
    assert_eq!(l.reserved_balance(10), RESERVE);
}

#[test]
fn create_without_deposit_allocates_nothing() {
    let mut l = MemoryLedger::new();
    assert!(l.deposit_creating(10, RESERVE - 1));
    let mut m = Module::new(RESERVE);
    assert_eq!(m.create(&mut l, 10, &context(0, None)), Err(KittyError::InsufficientFunds));
    assert_eq!(m.kitties_count(), 0);
    assert_eq!(m.kitty_owner(0), None);
    assert_eq!(l.free_balance(10), RESERVE - 1);
    assert_eq!(m.events(), Vec::<KittyEvent>::new());
}

#[test]
fn apply_create_follows_the_ledger_answer() {
    let mut m = Module::new(RESERVE);
    assert_eq!(m.apply_create(5, false, [1; 16]), Err(KittyError::InsufficientFunds));
    assert_eq!(m.kitties_count(), 0);
    assert_eq!(m.apply_create(5, true, [1; 16]), Ok(0));
    assert_eq!(m.kitties(0).map(|k| k.0), Some([1; 16]));
    assert_eq!(m.next_kitty_id(), Ok(1));
}

#[test]
fn transfer_moves_kitty_between_indexes() {
    let (mut m, mut l) = funded(&[1, 2]);
    let _ = m.create(&mut l, 1, &context(1, None));
    let _ = m.create(&mut l, 2, &context(2, None));
    assert_eq!(m.transfer(&mut l, 1, 2, 0), Ok(()));
    assert_eq!(m.kitty_owner(0), Some(2));
    assert_eq!(m.owned_kitties(1), Vec::<u32>::new());
    assert_eq!(m.owned_kitties(2), vec![1, 0]);
    assert_eq!(l.reserved_balance(1), 0);
    assert_eq!(l.reserved_balance(2), 2 * RESERVE);
    assert_index_in_sync(&m, &[1, 2]);
}

#[test]
fn transfer_refused_at_reservation_changes_nothing() {
    let (mut m, mut l) = funded(&[1]);
    let _ = m.create(&mut l, 1, &context(1, None));
    let _ = m.create(&mut l, 1, &context(2, None));
    assert!(l.deposit_creating(2, RESERVE - 1));
    let owners_before: Vec<Option<u64>> = (0..3).map(|i| m.kitty_owner(i)).collect();
    let events_before = m.events();
    assert_eq!(m.transfer(&mut l, 1, 2, 1), Err(KittyError::InsufficientFunds));
    let owners_after: Vec<Option<u64>> = (0..3).map(|i| m.kitty_owner(i)).collect();
    assert_eq!(owners_before, owners_after);
    assert_eq!(m.owned_kitties(1), vec![0, 1]);
    assert_eq!(m.owned_kitties(2), Vec::<u32>::new());
    assert_eq!(m.events(), events_before);
    assert_eq!(l.reserved_balance(1), 2 * RESERVE);
    assert_eq!(l.reserved_balance(2), 0);
}

#[test]
fn transfer_errors() {
    let (mut m, mut l) = funded(&[1, 2]);
    let _ = m.create(&mut l, 1, &context(1, None));
    assert_eq!(m.transfer(&mut l, 1, 2, 7), Err(KittyError::InvalidId));
    assert_eq!(m.transfer(&mut l, 2, 1, 0), Err(KittyError::NotOwner));
    assert_eq!(m.transfer(&mut l, 1, 1, 0), Err(KittyError::IdenticalAccount));
    assert_eq!(m.check_transfer(1, 2, 0), Ok(()));
    assert_eq!(m.apply_transfer(1, 2, 0, false), Err(KittyError::InsufficientFunds));
    assert_eq!(m.kitty_owner(0), Some(1));
}

#[test]
fn breed_checks_only_first_parent_owner() {
    let (mut m, mut l) = funded(&[1, 2]);
    assert_eq!(m.create(&mut l, 1, &context(1, None)), Ok(0));
    assert_eq!(m.create(&mut l, 2, &context(2, None)), Ok(1));
    assert_eq!(m.kitty_owner(1), Some(2));
    assert_eq!(m.breed(&mut l, 1, 0, 1, &context(3, None)), Ok(2));
    assert_eq!(m.kitty_owner(2), Some(1));
    assert_eq!(m.kitty_parents(2), vec![0, 1]);
    assert_eq!(m.kitty_children(0), vec![2]);
    assert_eq!(m.kitty_children(1), vec![2]);
    assert_eq!(m.owned_kitties(1), vec![0, 2]);
    assert_eq!(m.kitty_parents(0), Vec::<u32>::new());
    assert_index_in_sync(&m, &[1, 2]);
}

#[test]
fn breed_same_parent_allocates_nothing() {
    let (mut m, mut l) = funded(&[1]);
    let _ = m.create(&mut l, 1, &context(1, None));
    assert_eq!(
        m.breed(&mut l, 1, 0, 0, &context(2, None)),
        Err(KittyError::RequireDifferentParent)
    );
    assert_eq!(m.kitties_count(), 1);
    assert_eq!(m.next_kitty_id(), Ok(1));
    assert_eq!(l.reserved_balance(1), RESERVE);
}

#[test]
fn breed_errors() {
    let (mut m, mut l) = funded(&[1, 2]);
    let _ = m.create(&mut l, 1, &context(1, None));
    let _ = m.create(&mut l, 2, &context(2, None));
    assert_eq!(m.breed(&mut l, 1, 0, 5, &context(3, None)), Err(KittyError::InvalidId));
    assert_eq!(m.breed(&mut l, 1, 5, 0, &context(3, None)), Err(KittyError::InvalidId));
    assert_eq!(m.breed(&mut l, 1, 1, 0, &context(3, None)), Err(KittyError::NotOwner));
    assert_eq!(m.check_breed(1, 0, 1), Ok(()));
    assert_eq!(m.apply_breed(1, 0, 1, false, [0; 16]), Err(KittyError::InsufficientFunds));
    assert_eq!(m.kitties_count(), 2);
}

#[test]
fn breeding_appends_to_existing_children() {
    let (mut m, mut l) = funded(&[1, 2]);
    let _ = m.create(&mut l, 1, &context(1, None));
    let _ = m.create(&mut l, 1, &context(2, None));
    assert_eq!(m.breed(&mut l, 1, 0, 1, &context(3, None)), Ok(2));
    assert_eq!(m.breed(&mut l, 1, 1, 0, &context(4, None)), Ok(3));
    assert_eq!(m.kitty_children(0), vec![2, 3]);
    assert_eq!(m.kitty_children(1), vec![2, 3]);
    assert_eq!(m.kitty_parents(3), vec![1, 0]);
    assert_eq!(m.owned_kitties(1), vec![0, 1, 2, 3]);
}

#[test]
fn ids_strictly_increase_across_operations() {
    let (mut m, mut l) = funded(&[1, 2, 3]);
    let mut issued: Vec<u32> = Vec::new();
    issued.push(m.create(&mut l, 1, &context(1, None)).unwrap());
    issued.push(m.create(&mut l, 2, &context(2, None)).unwrap());
    let _ = m.transfer(&mut l, 2, 3, 1);
    issued.push(m.breed(&mut l, 1, 0, 1, &context(3, None)).unwrap());
    let _ = m.breed(&mut l, 1, 0, 0, &context(4, None));
    issued.push(m.create(&mut l, 3, &context(5, None)).unwrap());
    assert_eq!(issued, vec![0, 1, 2, 3]);
    for w in issued.windows(2) {
        assert!(w[0] < w[1]);
    }
}

#[test]
fn owner_index_stays_in_sync() {
    let accounts = [1, 2, 3];
    let (mut m, mut l) = funded(&accounts);
    let _ = m.create(&mut l, 1, &context(1, None));
    assert_index_in_sync(&m, &accounts);
    let _ = m.create(&mut l, 2, &context(2, None));
    let _ = m.create(&mut l, 1, &context(3, None));
    assert_index_in_sync(&m, &accounts);
    let _ = m.transfer(&mut l, 1, 3, 0);
    assert_index_in_sync(&m, &accounts);
    let _ = m.breed(&mut l, 2, 1, 2, &context(4, None));
    assert_index_in_sync(&m, &accounts);
    let _ = m.transfer(&mut l, 3, 2, 0);
    assert_index_in_sync(&m, &accounts);
    assert_eq!(m.owned_kitties(1), vec![2]);
    assert_eq!(m.owned_kitties(2), vec![1, 3, 0]);
    assert_eq!(m.owned_kitties(3), Vec::<u32>::new());
}

#[test]
fn events_are_logged_in_order() {
    let (mut m, mut l) = funded(&[1, 2]);
    let _ = m.create(&mut l, 1, &context(1, None));
    let _ = m.create(&mut l, 2, &context(2, None));
    let _ = m.breed(&mut l, 1, 0, 1, &context(3, None));
    let _ = m.transfer(&mut l, 1, 2, 2);
    assert_eq!(
        m.events(),
        vec![
            KittyEvent::Created(1, 0),
            KittyEvent::Created(2, 1),
            KittyEvent::Breed(1, 0, 1, 2),
            KittyEvent::Transferred(1, 2, 2),
        ]
    );
    assert_eq!(m.reserve_amount(), RESERVE);
}

#[test]
fn memory_ledger_reserves_all_or_nothing() {
    let mut l = MemoryLedger::new();
    assert!(l.deposit_creating(1, 500));
    assert!(!l.reserve(1, 501));
    assert_eq!(l.free_balance(1), 500);
    assert_eq!(l.reserved_balance(1), 0);
    assert!(l.reserve(1, 200));
    assert_eq!(l.free_balance(1), 300);
    assert_eq!(l.reserved_balance(1), 200);
    l.unreserve(1, 500);
    assert_eq!(l.free_balance(1), 500);
    assert_eq!(l.reserved_balance(1), 0);
    assert!(!l.deposit_creating(1, u64::MAX));
    assert_eq!(l.free_balance(1), 500);
}

#[test]
fn refused_operations_leave_deposits_alone() {
    let (mut m, mut l) = funded(&[1, 2]);
    let _ = m.create(&mut l, 1, &context(1, None));
    let _ = m.create(&mut l, 2, &context(2, None));
    let before = (l.free_balance(1), l.reserved_balance(1), l.free_balance(2), l.reserved_balance(2));
    let _ = m.breed(&mut l, 1, 0, 0, &context(3, None));
    let _ = m.breed(&mut l, 1, 1, 0, &context(3, None));
    let _ = m.transfer(&mut l, 2, 1, 0);
    let _ = m.transfer(&mut l, 1, 1, 0);
    let after = (l.free_balance(1), l.reserved_balance(1), l.free_balance(2), l.reserved_balance(2));
    assert_eq!(before, after);
    assert_eq!(m.breed(&mut l, 1, 0, 1, &context(4, None)), Ok(2));
    assert_eq!(l.reserved_balance(1), 2 * RESERVE);
    assert_eq!(l.reserved_balance(2), RESERVE);
}
