use kitties::{combine, Config, Error, Event, Kitty, LocalHost, Pallet};

const DEPOSIT: u128 = 100;
const MAX_OWNED: u32 = 3;
const FUNDS: u128 = 1_000;

const DNA_OF_1: [u8; 16] = [222, 74, 100, 79, 130, 232, 71, 221, 34, 217, 195, 25, 113, 20, 180, 38];
const DNA_OF_2: [u8; 16] =
    [230, 112, 55, 161, 121, 177, 213, 220, 253, 45, 213, 226, 213, 125, 223, 218];

/// Accounts 1 and 2 are funded, every other account has nothing.
fn new_test_ext() -> Pallet<LocalHost> {
    let mut host = LocalHost::new([7u8; 32], 5);
    assert!(host.set_balance(1, FUNDS, 0));
    assert!(host.set_balance(2, FUNDS, 0));
    host.set_extrinsic_index(Some(3));
    Pallet::new(host, DEPOSIT, MAX_OWNED)
}

/// create new kitty
fn new_kitty(pallet: &mut Pallet<LocalHost>, account_id: u64) -> Result<Event, Error> {
    pallet.create(account_id)
}

/// Everything that can be observed of the registry and of the accounts 1, 2 and 99.
fn observe(pallet: &Pallet<LocalHost>) -> Vec<String> {
    let mut seen = vec![format!("next {}", pallet.next_kitty_id())];
    for id in [0u32, 1, 2, 3, 4, 5, u32::MAX] {
        seen.push(format!("{} {:?} {:?}", id, pallet.kitties(id), pallet.kitty_owner(id)));
    }
    for who in [1u64, 2, 99] {
        seen.push(format!(
            "{} {:?} {:?}",
            who,
            pallet.all_owner_kitty(who),
            pallet.host().balances(who)
        ));
    }
    seen
}

#[test]
fn create_success() {
    let mut pallet = new_test_ext();
    assert!(new_kitty(&mut pallet, 1).is_ok());
    assert_eq!(pallet.next_kitty_id(), 1);
}

#[test]
fn create_fail_max_count_overflow() {
    let mut pallet = new_test_ext();
    assert!(pallet.set_next_kitty_id(u32::max_value()));
    let before = observe(&pallet);
    assert_eq!(new_kitty(&mut pallet, 1), Err(Error::KittiesCountOverflow));
    assert_eq!(observe(&pallet), before);
}

#[test]
fn create_failed_token_not_enough() {
    let mut pallet = new_test_ext();
    let before = observe(&pallet);
    assert_eq!(new_kitty(&mut pallet, 99), Err(Error::TokenNotEnough));
    assert_eq!(observe(&pallet), before);
}

#[test]
fn transfer_success() {
    let mut pallet = new_test_ext();
    let _ = new_kitty(&mut pallet, 1);
    assert!(pallet.transfer(1, 0, 2).is_ok());
}

#[test]
fn transfer_fail_not_owner() {
    let mut pallet = new_test_ext();
    let _ = new_kitty(&mut pallet, 1);
    let before = observe(&pallet);
    assert_eq!(pallet.transfer(2, 0, 1), Err(Error::NotOwner));
    assert_eq!(observe(&pallet), before);
}

#[test]
fn breed_success() {
    let mut pallet = new_test_ext();
    let _ = new_kitty(&mut pallet, 1);
    let _ = new_kitty(&mut pallet, 1);

    assert!(pallet.breed(1, 0, 1).is_ok());
    assert_eq!(pallet.next_kitty_id(), 3);
}

#[test]
fn breed_fail_same_kitty_id() {
    let mut pallet = new_test_ext();
    let before = observe(&pallet);
    assert_eq!(pallet.breed(1, 1, 1), Err(Error::SameKittyId));
    assert_eq!(observe(&pallet), before);
}

#[test]
fn breed_fail_invalid_kittyid() {
    let mut pallet = new_test_ext();
    let before = observe(&pallet);
    assert_eq!(pallet.breed(1, 0, 1), Err(Error::InvalidKittyId));
    assert_eq!(observe(&pallet), before);
}

#[test]
fn breed_fail_count_overflow() {
    let mut pallet = new_test_ext();
    let _ = new_kitty(&mut pallet, 1);
    let _ = new_kitty(&mut pallet, 1);

    assert!(pallet.set_next_kitty_id(u32::max_value()));

    let before = observe(&pallet);
    assert_eq!(pallet.breed(1, 0, 1), Err(Error::KittiesCountOverflow));
    assert_eq!(observe(&pallet), before);
}

#[test]
fn new_registry_is_empty() {
    let pallet = new_test_ext();
    assert_eq!(pallet.next_kitty_id(), 0);
    assert_eq!(pallet.kitties(0), None);
    assert_eq!(pallet.kitty_owner(0), None);
    assert_eq!(pallet.all_owner_kitty(1), Vec::<Kitty>::new());
    assert_eq!(pallet.owned_len(1), 0);
    assert_eq!(pallet.kitty_reserve(), DEPOSIT);
    assert_eq!(pallet.max_length(), MAX_OWNED);
    assert_eq!(pallet.get_next_id(), Ok(0));
    assert_eq!(pallet.get_kitty(0), Err(()));
}

#[test]
fn create_enters_the_kitty_and_reserves_the_deposit() {
    let mut pallet = new_test_ext();
    let kitty = Kitty(DNA_OF_1);
    assert_eq!(pallet.random_value(1), DNA_OF_1);
    assert_eq!(pallet.create(1), Ok(Event::KittyCreated(1, 0, kitty)));
    assert_eq!(pallet.next_kitty_id(), 1);
    assert_eq!(pallet.kitties(0), Some(kitty));
    assert_eq!(pallet.get_kitty(0), Ok(kitty));
    assert_eq!(pallet.kitties(1), None);
    assert_eq!(pallet.kitty_owner(0), Some(1));
    assert_eq!(pallet.all_owner_kitty(1), vec![kitty]);
    assert_eq!(pallet.all_owner_kitty(2), Vec::<Kitty>::new());
    assert_eq!(pallet.host().balances(1).free, FUNDS - DEPOSIT);
    assert_eq!(pallet.host().balances(1).reserved, DEPOSIT);
    assert_eq!(pallet.host().balances(2).free, FUNDS);
    assert_eq!(pallet.host().balances(2).reserved, 0);
}

#[test]
fn create_draws_by_caller_and_extrinsic() {
    let mut pallet = new_test_ext();
    assert_eq!(pallet.create(1), Ok(Event::KittyCreated(1, 0, Kitty(DNA_OF_1))));
    assert_eq!(pallet.create(2), Ok(Event::KittyCreated(2, 1, Kitty(DNA_OF_2))));
    pallet.set_extrinsic_index(Some(4));
    let third = pallet.random_value(1);
    assert_ne!(third, DNA_OF_1);
    assert_eq!(pallet.create(1), Ok(Event::KittyCreated(1, 2, Kitty(third))));
    assert_eq!(pallet.all_owner_kitty(1), vec![Kitty(DNA_OF_1), Kitty(third)]);
}

#[test]
fn create_overflow_precedes_missing_funds() {
    let mut pallet = new_test_ext();
    assert!(pallet.set_next_kitty_id(u32::MAX));
    assert_eq!(pallet.get_next_id(), Err(Error::KittiesCountOverflow));
    assert_eq!(pallet.create(99), Err(Error::KittiesCountOverflow));
}

#[test]
fn create_just_below_the_last_identifier() {
    let mut pallet = new_test_ext();
    assert!(pallet.set_next_kitty_id(u32::MAX - 1));
    assert_eq!(pallet.create(1), Ok(Event::KittyCreated(1, u32::MAX - 1, Kitty(DNA_OF_1))));
    assert_eq!(pallet.next_kitty_id(), u32::MAX);
    assert_eq!(pallet.create(1), Err(Error::KittiesCountOverflow));
}

#[test]
fn next_identifier_never_moves_back() {
    let mut pallet = new_test_ext();
    assert!(pallet.set_next_kitty_id(7));
    let before = observe(&pallet);
    assert!(!pallet.set_next_kitty_id(6));
    assert_eq!(observe(&pallet), before);
    assert!(pallet.set_next_kitty_id(7));
    assert_eq!(pallet.next_kitty_id(), 7);
}

#[test]
fn create_beyond_the_bound_changes_nothing() {
    let mut pallet = new_test_ext();
    for _ in 0..MAX_OWNED {
        assert!(pallet.create(1).is_ok());
    }
    let before = observe(&pallet);
    assert_eq!(pallet.create(1), Err(Error::ExceedMaxKittyOwned));
    assert_eq!(observe(&pallet), before);
    assert_eq!(pallet.host().balances(1).reserved, 3 * DEPOSIT);
    assert_eq!(pallet.next_kitty_id(), 3);
}

#[test]
fn missing_funds_precede_a_full_collection() {
    let mut host = LocalHost::new([7u8; 32], 5);
    assert!(host.set_balance(1, 250, 0));
    let mut pallet = Pallet::new(host, DEPOSIT, 2);
    assert!(pallet.create(1).is_ok());
    assert!(pallet.create(1).is_ok());
    assert_eq!(pallet.create(1), Err(Error::TokenNotEnough));
    assert_eq!(pallet.host().balances(1).free, 50);
}

#[test]
fn nobody_may_hold_anything_when_the_bound_is_zero() {
    let mut host = LocalHost::new([7u8; 32], 5);
    assert!(host.set_balance(1, FUNDS, 0));
    let mut pallet = Pallet::new(host, DEPOSIT, 0);
    assert_eq!(pallet.create(1), Err(Error::ExceedMaxKittyOwned));
    assert_eq!(pallet.host().balances(1).free, FUNDS);
    assert_eq!(pallet.next_kitty_id(), 0);
}

#[test]
fn breed_combines_the_parents_under_a_drawn_selector() {
    let mut pallet = new_test_ext();
    assert!(pallet.create(1).is_ok());
    assert!(pallet.create(2).is_ok());
    pallet.set_extrinsic_index(Some(4));
    let selector = pallet.random_value(1);
    let child = Kitty(combine(&DNA_OF_1, &DNA_OF_2, &selector));
    for i in 0..16 {
        assert_eq!(
            child.0[i],
            (DNA_OF_1[i] & selector[i]) | (DNA_OF_2[i] & !selector[i])
        );
    }
    assert_eq!(pallet.breed(1, 0, 1), Ok(Event::KittyCreated(1, 2, child)));
    assert_eq!(pallet.kitties(2), Some(child));
    assert_eq!(pallet.kitty_owner(2), Some(1));
    assert_eq!(pallet.all_owner_kitty(1), vec![Kitty(DNA_OF_1), child]);
    assert_eq!(pallet.host().balances(1).reserved, 2 * DEPOSIT);
    assert_eq!(pallet.next_kitty_id(), 3);
}

#[test]
fn breed_does_not_ask_who_owns_the_parents() {
    let mut pallet = new_test_ext();
    assert!(pallet.create(1).is_ok());
    assert!(pallet.create(1).is_ok());
    let selector = pallet.random_value(2);
    let child = Kitty(combine(&DNA_OF_1, &DNA_OF_1, &selector));
    assert_eq!(child, Kitty(DNA_OF_1));
    assert_eq!(pallet.breed(2, 1, 0), Ok(Event::KittyCreated(2, 2, child)));
    assert_eq!(pallet.kitty_owner(2), Some(2));
    assert_eq!(pallet.all_owner_kitty(2), vec![child]);
    assert_eq!(pallet.host().balances(2).reserved, DEPOSIT);
}

#[test]
fn breed_checks_in_order() {
    let mut pallet = new_test_ext();
    assert!(pallet.create(1).is_ok());
    assert!(pallet.create(1).is_ok());
    assert_eq!(pallet.breed(99, 5, 5), Err(Error::SameKittyId));
    assert_eq!(pallet.breed(99, 0, 5), Err(Error::InvalidKittyId));
    assert_eq!(pallet.breed(99, 5, 0), Err(Error::InvalidKittyId));
    assert_eq!(pallet.breed(99, 0, 1), Err(Error::TokenNotEnough));
    assert!(pallet.create(1).is_ok());
    let before = observe(&pallet);
    assert_eq!(pallet.breed(1, 0, 1), Err(Error::ExceedMaxKittyOwned));
    assert_eq!(observe(&pallet), before);
    assert!(pallet.set_next_kitty_id(u32::MAX));
    assert_eq!(pallet.breed(99, 0, 1), Err(Error::KittiesCountOverflow));
    assert_eq!(pallet.breed(99, 0, 9), Err(Error::InvalidKittyId));
}

#[test]
fn transfer_moves_the_kitty_and_the_deposit() {
    let mut pallet = new_test_ext();
    assert!(pallet.create(1).is_ok());
    assert!(pallet.create(2).is_ok());
    assert_eq!(pallet.transfer(1, 0, 2), Ok(Event::KittyTransferred(1, 2, 0)));
    assert_eq!(pallet.kitty_owner(0), Some(2));
    assert_eq!(pallet.kitty_owner(1), Some(2));
    assert_eq!(pallet.kitties(0), Some(Kitty(DNA_OF_1)));
    assert_eq!(pallet.all_owner_kitty(1), Vec::<Kitty>::new());
    assert_eq!(pallet.all_owner_kitty(2), vec![Kitty(DNA_OF_2), Kitty(DNA_OF_1)]);
    assert_eq!(pallet.owned_len(1), 0);
    assert_eq!(pallet.owned_len(2), 2);
    assert_eq!(pallet.host().balances(1).free, FUNDS);
    assert_eq!(pallet.host().balances(1).reserved, 0);
    assert_eq!(pallet.host().balances(2).free, FUNDS - 2 * DEPOSIT);
    assert_eq!(pallet.host().balances(2).reserved, 2 * DEPOSIT);
    assert_eq!(pallet.next_kitty_id(), 2);
}

#[test]
fn transfer_fills_the_gap_with_the_last_item() {
    let mut pallet = new_test_ext();
    let mut dna = Vec::new();
    for index in 0..3u32 {
        pallet.set_extrinsic_index(Some(index));
        dna.push(Kitty(pallet.random_value(1)));
        assert!(pallet.create(1).is_ok());
    }
    assert_eq!(pallet.all_owner_kitty(1), vec![dna[0], dna[1], dna[2]]);
    assert_eq!(pallet.position(1, &dna[1]), Some(1));
    assert_eq!(pallet.position(2, &dna[1]), None);
    assert!(pallet.transfer(1, 0, 2).is_ok());
    assert_eq!(pallet.all_owner_kitty(1), vec![dna[2], dna[1]]);
    assert_eq!(pallet.all_owner_kitty(2), vec![dna[0]]);
    assert!(pallet.transfer(1, 1, 2).is_ok());
    assert_eq!(pallet.all_owner_kitty(1), vec![dna[2]]);
    assert_eq!(pallet.all_owner_kitty(2), vec![dna[0], dna[1]]);
}

#[test]
fn transfer_among_kitties_of_one_genome() {
    let mut pallet = new_test_ext();
    assert!(pallet.create(1).is_ok());
    assert!(pallet.create(1).is_ok());
    assert_eq!(pallet.kitties(0), pallet.kitties(1));
    assert!(pallet.transfer(1, 1, 2).is_ok());
    assert_eq!(pallet.kitty_owner(0), Some(1));
    assert_eq!(pallet.kitty_owner(1), Some(2));
    assert_eq!(pallet.all_owner_kitty(1), vec![Kitty(DNA_OF_1)]);
    assert_eq!(pallet.all_owner_kitty(2), vec![Kitty(DNA_OF_1)]);
    assert!(pallet.transfer(1, 0, 2).is_ok());
    assert_eq!(pallet.all_owner_kitty(1), Vec::<Kitty>::new());
    assert_eq!(pallet.all_owner_kitty(2), vec![Kitty(DNA_OF_1), Kitty(DNA_OF_1)]);
    assert_eq!(pallet.transfer(1, 0, 2), Err(Error::NotOwner));
}

#[test]
fn transfer_to_oneself_moves_the_kitty_to_the_end() {
    let mut pallet = new_test_ext();
    let mut dna = Vec::new();
    for index in 0..3u32 {
        pallet.set_extrinsic_index(Some(index));
        dna.push(Kitty(pallet.random_value(1)));
        assert!(pallet.create(1).is_ok());
    }
    assert_eq!(pallet.transfer(1, 0, 1), Ok(Event::KittyTransferred(1, 1, 0)));
    assert_eq!(pallet.all_owner_kitty(1), vec![dna[2], dna[1], dna[0]]);
    assert_eq!(pallet.kitty_owner(0), Some(1));
    assert_eq!(pallet.host().balances(1).free, FUNDS - 3 * DEPOSIT);
    assert_eq!(pallet.host().balances(1).reserved, 3 * DEPOSIT);
}

#[test]
fn transfer_checks_in_order() {
    let mut pallet = new_test_ext();
    assert!(pallet.create(1).is_ok());
    let before = observe(&pallet);
    assert_eq!(pallet.transfer(1, 4, 99), Err(Error::InvalidKittyId));
    assert_eq!(pallet.transfer(2, 0, 99), Err(Error::NotOwner));
    assert_eq!(pallet.transfer(1, 0, 99), Err(Error::TokenNotEnough));
    assert_eq!(observe(&pallet), before);
    for _ in 0..MAX_OWNED {
        assert!(pallet.create(2).is_ok());
    }
    let before = observe(&pallet);
    assert_eq!(pallet.transfer(1, 0, 2), Err(Error::ExceedMaxKittyOwned));
    assert_eq!(observe(&pallet), before);
    assert_eq!(pallet.kitty_owner(0), Some(1));
    assert_eq!(pallet.host().balances(2).reserved, 3 * DEPOSIT);
}

#[test]
fn create_breed_and_transfer_in_turn() {
    let mut pallet = new_test_ext();
    assert!(pallet.create(1).is_ok());
    assert_eq!(pallet.next_kitty_id(), 1);
    assert_eq!(pallet.kitty_owner(0), Some(1));

    assert!(pallet.create(1).is_ok());
    let parent_1 = pallet.kitties(0).unwrap();
    let parent_2 = pallet.kitties(1).unwrap();
    let selector = pallet.random_value(1);
    let child = Kitty(combine(&parent_1.0, &parent_2.0, &selector));
    assert_eq!(pallet.breed(1, 0, 1), Ok(Event::KittyCreated(1, 2, child)));
    assert_eq!(pallet.next_kitty_id(), 3);
    assert_eq!(pallet.kitty_owner(2), Some(1));
    assert_eq!(pallet.kitties(2), Some(child));

    assert_eq!(pallet.transfer(1, 0, 2), Ok(Event::KittyTransferred(1, 2, 0)));
    assert_eq!(pallet.kitty_owner(0), Some(2));
    let before = observe(&pallet);
    assert_eq!(pallet.transfer(1, 0, 2), Err(Error::NotOwner));
    assert_eq!(observe(&pallet), before);
    assert_eq!(pallet.transfer(2, 0, 1), Ok(Event::KittyTransferred(2, 1, 0)));
    assert_eq!(pallet.kitty_owner(0), Some(1));
}

#[test]
fn every_deposit_is_accounted_for() {
    let mut pallet = new_test_ext();
    assert!(pallet.create(1).is_ok());
    assert!(pallet.create(2).is_ok());
    assert!(pallet.breed(2, 0, 1).is_ok());
    assert!(pallet.transfer(2, 2, 1).is_ok());
    assert!(pallet.transfer(1, 0, 2).is_ok());
    for who in [1u64, 2] {
        let held = pallet.owned_len(who) as u128;
        let data = pallet.host().balances(who);
        assert_eq!(data.reserved, held * DEPOSIT);
        assert_eq!(data.free + data.reserved, FUNDS);
        assert_eq!(pallet.host().can_reserve(who, data.free), true);
        assert_eq!(pallet.host().can_reserve(who, data.free + 1), false);
    }
    assert_eq!(pallet.owned_len(1) + pallet.owned_len(2), 3);
}

#[test]
fn create_kitty_enters_the_given_kitty() {
    let mut pallet = new_test_ext();
    let kitty = Kitty([0x42; 16]);
    assert_eq!(pallet.create_kitty(2, kitty), Ok(Event::KittyCreated(2, 0, kitty)));
    assert_eq!(pallet.kitties(0), Some(kitty));
    assert_eq!(pallet.kitty_owner(0), Some(2));
    assert_eq!(pallet.all_owner_kitty(2), vec![kitty]);
    assert_eq!(pallet.host().balances(2).reserved, DEPOSIT);
    assert_eq!(pallet.next_kitty_id(), 1);
    assert_eq!(pallet.create_kitty(99, kitty), Err(Error::TokenNotEnough));
}

#[test]
fn breed_with_a_given_selector() {
    let mut pallet = new_test_ext();
    assert!(pallet.create_kitty(1, Kitty([0xf0; 16])).is_ok());
    assert!(pallet.create_kitty(2, Kitty([0x0f; 16])).is_ok());
    let mut selector = [0xaa; 16];
    selector[15] = 0xff;
    let mut child = [0xa5; 16];
    child[15] = 0xf0;
    assert_eq!(
        pallet.breed_with(2, 0, 1, &selector),
        Ok(Event::KittyCreated(2, 2, Kitty(child)))
    );
    let mut swapped = [0x5a; 16];
    swapped[15] = 0x0f;
    assert_eq!(
        pallet.breed_with(1, 1, 0, &selector),
        Ok(Event::KittyCreated(1, 3, Kitty(swapped)))
    );
    assert_eq!(pallet.all_owner_kitty(2), vec![Kitty([0x0f; 16]), Kitty(child)]);
    assert_eq!(pallet.all_owner_kitty(1), vec![Kitty([0xf0; 16]), Kitty(swapped)]);
    assert_eq!(pallet.breed_with(1, 3, 3, &selector), Err(Error::SameKittyId));
    assert_eq!(pallet.breed_with(1, 3, 4, &selector), Err(Error::InvalidKittyId));
}
