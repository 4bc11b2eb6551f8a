use substratekitties::hashing::generate_id;
use substratekitties::registry::Registry;
use substratekitties::types::{Event, Kitty, KittyError, KittyId};

const ID_ZERO_SEED_CALLER_1_NONCE_0: KittyId = [
    236, 171, 19, 26, 39, 166, 157, 70, 73, 152, 178, 140, 139, 11, 104, 52, 229, 166, 204, 5,
    228, 91, 177, 96, 152, 9, 170, 52, 95, 25, 106, 190,
];

const ID_SEED_7_CALLER_2_NONCE_5: KittyId = [
    116, 43, 63, 231, 225, 141, 42, 252, 23, 41, 22, 84, 230, 16, 54, 104, 27, 92, 174, 157, 49,
    195, 158, 244, 198, 164, 178, 153, 35, 201, 117, 150,
];

fn id(b: u8) -> KittyId {
    [b; 32]
}

fn create_ok(r: &mut Registry, caller: u64, seed: u8) -> KittyId {
    match r.create_kitty(caller, &id(seed)) {
        Ok(Event::KittyCreated(owner, kid)) => {
            assert_eq!(owner, caller);
            kid
        }
        other => panic!("create failed: {:?}", other),
    }
}

#[test]
fn generate_id_is_blake2_256_of_encoded_inputs() {
    assert_eq!(generate_id(&[0u8; 32], 1, 0), ID_ZERO_SEED_CALLER_1_NONCE_0);
    assert_eq!(generate_id(&[7u8; 32], 2, 5), ID_SEED_7_CALLER_2_NONCE_5);
    assert_ne!(generate_id(&[0u8; 32], 1, 0), generate_id(&[0u8; 32], 1, 1));
    assert_ne!(generate_id(&[0u8; 32], 1, 0), generate_id(&[0u8; 32], 2, 0));
}

#[test]
fn create_kitty_derives_id_from_seed_caller_and_nonce() {
    let mut r = Registry::new();
    assert_eq!(
        r.create_kitty(1, &[0u8; 32]),
        Ok(Event::KittyCreated(1, ID_ZERO_SEED_CALLER_1_NONCE_0))
    );
    assert_eq!(r.nonce(), 1);
    let k = r.kitty(&ID_ZERO_SEED_CALLER_1_NONCE_0).unwrap();
    assert_eq!(
        k,
        Kitty { id: ID_ZERO_SEED_CALLER_1_NONCE_0, dna: ID_ZERO_SEED_CALLER_1_NONCE_0, price: 0, gen: 0 }
    );

    let mut r = Registry::with_nonce(5);
    assert_eq!(
        r.create_kitty(2, &[7u8; 32]),
        Ok(Event::KittyCreated(2, ID_SEED_7_CALLER_2_NONCE_5))
    );
    assert_eq!(r.nonce(), 6);
}

#[test]
fn new_registry_is_empty() {
    let r = Registry::new();
    assert_eq!(r.kitties_count(), 0);
    assert_eq!(r.nonce(), 0);
    assert_eq!(r.num_kitties_owned_by(1), 0);
    assert_eq!(r.kitty_id_at_index(0), None);
    assert_eq!(r.kitty_of_owner_by_index(1, 0), None);
    assert!(!r.kitty_exists(&id(1)));
    assert_eq!(r.kitty(&id(1)), Err(KittyError::NotFound));
    assert_eq!(r.kitty_owner(&id(1)), Err(KittyError::NotFound));
    assert_eq!(r.index_of_kitty(&id(1)), None);
    assert_eq!(r.kitty_at_index(&id(1)), None);
}

#[test]
fn created_ids_are_pairwise_distinct() {
    let mut r = Registry::new();
    let mut ids: Vec<KittyId> = Vec::new();
    // The same seed and caller still give fresh identifiers, as the nonce moves.
    for caller in [1u64, 1, 2, 1, 3, 2] {
        ids.push(create_ok(&mut r, caller, 9));
    }
    for i in 0..ids.len() {
        for j in 0..ids.len() {
            if i != j {
                assert_ne!(ids[i], ids[j]);
            }
        }
    }
}

#[test]
fn global_index_enumerates_created_ids_in_order() {
    let mut r = Registry::new();
    let mut ids: Vec<KittyId> = Vec::new();
    for n in 0..5u8 {
        ids.push(create_ok(&mut r, (n % 2) as u64, n));
    }
    assert_eq!(r.kitties_count(), 5);
    for i in 0..5usize {
        assert_eq!(r.kitty_id_at_index(i as u64), Some(ids[i]));
        assert_eq!(r.index_of_kitty(&ids[i]), Some(i as u64));
    }
    assert_eq!(r.kitty_id_at_index(5), None);
}

#[test]
fn owner_index_enumerates_each_owners_kitties() {
    let mut r = Registry::new();
    let a1 = create_ok(&mut r, 10, 1);
    let b1 = create_ok(&mut r, 20, 2);
    let a2 = create_ok(&mut r, 10, 3);
    let a3 = create_ok(&mut r, 10, 4);
    assert_eq!(r.num_kitties_owned_by(10), 3);
    assert_eq!(r.num_kitties_owned_by(20), 1);
    assert_eq!(r.num_kitties_owned_by(30), 0);
    assert_eq!(r.kitty_of_owner_by_index(10, 0), Some(a1));
    assert_eq!(r.kitty_of_owner_by_index(10, 1), Some(a2));
    assert_eq!(r.kitty_of_owner_by_index(10, 2), Some(a3));
    assert_eq!(r.kitty_of_owner_by_index(10, 3), None);
    assert_eq!(r.kitty_of_owner_by_index(20, 0), Some(b1));
    assert_eq!(r.kitty_of_owner_by_index(20, 1), None);
    assert_eq!(r.kitty_at_index(&a1), Some(0));
    assert_eq!(r.kitty_at_index(&a2), Some(1));
    assert_eq!(r.kitty_at_index(&a3), Some(2));
    assert_eq!(r.kitty_at_index(&b1), Some(0));
    assert_eq!(r.kitty_owner(&a2), Ok(10));
    assert_eq!(r.kitty_owner(&b1), Ok(20));
}

#[test]
fn set_price_by_owner_succeeds_and_is_idempotent() {
    let mut r = Registry::new();
    let k = create_ok(&mut r, 1, 1);
    assert_eq!(r.set_price(1, k, 42), Ok(Event::PriceSet(1, k, 42)));
    assert_eq!(r.kitty(&k).unwrap().price, 42);
    assert_eq!(r.set_price(1, k, 42), Ok(Event::PriceSet(1, k, 42)));
    assert_eq!(r.kitty(&k).unwrap().price, 42);
    assert_eq!(r.kitty(&k).unwrap().dna, k);
    assert_eq!(r.kitties_count(), 1);
    assert_eq!(r.num_kitties_owned_by(1), 1);
}

#[test]
fn set_price_by_other_is_unauthorized() {
    let mut r = Registry::new();
    let k = create_ok(&mut r, 1, 1);
    assert_eq!(r.set_price(1, k, 7), Ok(Event::PriceSet(1, k, 7)));
    assert_eq!(r.set_price(2, k, 99), Err(KittyError::Unauthorized));
    assert_eq!(r.kitty(&k).unwrap().price, 7);
}

#[test]
fn set_price_of_unknown_kitty_is_not_found() {
    let mut r = Registry::new();
    create_ok(&mut r, 1, 1);
    assert_eq!(r.set_price(1, id(200), 5), Err(KittyError::NotFound));
}

#[test]
fn create_at_largest_nonce_overflows_and_changes_nothing() {
    let mut r = Registry::with_nonce(u64::MAX);
    assert_eq!(r.create_kitty(1, &id(1)), Err(KittyError::Overflow));
    assert_eq!(r.kitties_count(), 0);
    assert_eq!(r.num_kitties_owned_by(1), 0);
    assert_eq!(r.nonce(), u64::MAX);

    let mut r = Registry::with_nonce(u64::MAX - 1);
    create_ok(&mut r, 1, 1);
    assert_eq!(r.nonce(), u64::MAX);
    assert_eq!(r.create_kitty(1, &id(2)), Err(KittyError::Overflow));
    assert_eq!(r.kitties_count(), 1);
    assert_eq!(r.num_kitties_owned_by(1), 1);
}

#[test]
fn duplicate_id_is_rejected() {
    let mut r = Registry::new();
    assert_eq!(r.create_kitty_with_id(1, id(5)), Ok(Event::KittyCreated(1, id(5))));
    assert_eq!(r.create_kitty_with_id(2, id(5)), Err(KittyError::DuplicateId));
    assert_eq!(r.kitties_count(), 1);
    assert_eq!(r.num_kitties_owned_by(2), 0);
    assert_eq!(r.nonce(), 1);
    let other = Kitty { id: id(5), dna: id(5), price: 3, gen: 0 };
    assert_eq!(r.mint(3, id(5), other), Err(KittyError::DuplicateId));
    assert_eq!(r.kitty(&id(5)).unwrap().price, 0);
    assert_eq!(r.kitty_owner(&id(5)), Ok(1));
}

#[test]
fn mint_inserts_without_advancing_nonce() {
    let mut r = Registry::new();
    let k = Kitty { id: id(8), dna: id(9), price: 11, gen: 2 };
    assert_eq!(r.mint(4, id(8), k), Ok(Event::KittyCreated(4, id(8))));
    assert_eq!(r.nonce(), 0);
    assert_eq!(r.kitties_count(), 1);
    assert_eq!(r.kitty(&id(8)), Ok(k));
    assert_eq!(r.kitty_owner(&id(8)), Ok(4));
    assert_eq!(r.kitty_of_owner_by_index(4, 0), Some(id(8)));
    assert!(r.kitty_exists(&id(8)));
}

#[test]
fn create_then_price_scenario() {
    let a = 1u64;
    let b = 2u64;
    let mut r = Registry::new();
    let ev = r.create_kitty(a, &id(3)).unwrap();
    let id1 = match ev {
        Event::KittyCreated(owner, kid) => {
            assert_eq!(owner, a);
            kid
        }
        other => panic!("unexpected event {:?}", other),
    };
    assert_eq!(r.kitties_count(), 1);
    assert_eq!(r.num_kitties_owned_by(a), 1);
    assert_eq!(r.kitty_id_at_index(0), Some(id1));
    assert_eq!(r.set_price(b, id1, 5), Err(KittyError::Unauthorized));
    assert_eq!(r.set_price(a, id1, 5), Ok(Event::PriceSet(a, id1, 5)));
    assert_eq!(r.kitty(&id1).unwrap().price, 5);
}

#[test]
fn error_messages() {
    assert_eq!(KittyError::DuplicateId.message(), "This new id already exists.");
    assert_eq!(
        KittyError::Overflow.message(),
        "Overflow error, couldn't add another kitty to storage."
    );
    assert_eq!(KittyError::NotFound.message(), "Kitty with this id doesn't exist");
    assert_eq!(KittyError::Unauthorized.message(), "You are not the owner of this kitty.");
}
