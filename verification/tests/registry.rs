use satch::address::{
    driver_address_of, plate_address_of, platform_address_of, review_address_of,
};
use satch::errors::SatchError;
use satch::ops::{leave_review, register_driver, register_platform};
use satch::records::{DriverProfile, Platform, Record};
use satch::store::RegistryStore;

fn bytes(v: &[u8]) -> Vec<u8> {
    v.to_vec()
}

fn read_platform(store: &RegistryStore, owner: &Vec<u8>) -> Platform {
    let addr = platform_address_of(owner);
    match store.read(&addr) {
        Ok(Record::Platform(p)) => p.clone(),
        other => panic!("expected a platform record, got {:?}", other),
    }
}

fn read_driver(store: &RegistryStore, identity: &Vec<u8>) -> DriverProfile {
    let addr = driver_address_of(identity);
    match store.read(&addr) {
        Ok(Record::Driver(d)) => d.clone(),
        other => panic!("expected a driver record, got {:?}", other),
    }
}

/// Registers owner `[1]` as platform "Rapido" and driver `[2]` under it.
/// Returns the store and the driver's address.
fn store_with_driver() -> (RegistryStore, Vec<u8>) {
    let mut store = RegistryStore::new();
    let owner = bytes(&[1]);
    register_platform(&mut store, owner.clone(), "Rapido".to_string()).unwrap();
    let platform_ref = platform_address_of(&owner);
    let identity = bytes(&[2]);
    register_driver(
        &mut store,
        owner.clone(),
        platform_ref,
        identity.clone(),
        "Asha".to_string(),
        "KA-01-1234".to_string(),
    )
    .unwrap();
    (store, driver_address_of(&identity))
}

#[test]
fn register_platform_initializes_fields() {
    let mut store = RegistryStore::new();
    let owner = bytes(&[7, 7]);
    register_platform(&mut store, owner.clone(), "Rapido".to_string()).unwrap();
    let p = read_platform(&store, &owner);
    assert_eq!(p.owner_identity, owner);
    assert_eq!(p.name, "Rapido");
    assert!(!p.verified);
    assert_eq!(p.driver_count, 0);
}

#[test]
fn register_platform_twice_rejected() {
    let mut store = RegistryStore::new();
    let owner = bytes(&[3]);
    register_platform(&mut store, owner.clone(), "First".to_string()).unwrap();
    let before = read_platform(&store, &owner);
    let second = register_platform(&mut store, owner.clone(), "Second".to_string());
    assert_eq!(second, Err(SatchError::AlreadyExists));
    let after = read_platform(&store, &owner);
    assert_eq!(before, after);
    assert_eq!(after.name, "First");
}

#[test]
fn register_driver_creates_profile_and_mapping() {
    let mut store = RegistryStore::new();
    let owner = bytes(&[1]);
    register_platform(&mut store, owner.clone(), "Rapido".to_string()).unwrap();
    let platform_ref = platform_address_of(&owner);
    let identity = bytes(&[2]);
    register_driver(
        &mut store,
        owner.clone(),
        platform_ref.clone(),
        identity.clone(),
        "Asha".to_string(),
        "KA-01-1234".to_string(),
    )
    .unwrap();
    let d = read_driver(&store, &identity);
    assert_eq!(d.owner_identity, identity);
    assert_eq!(d.platform_ref, platform_ref);
    assert_eq!(d.name, "Asha");
    assert_eq!(d.license_plate, "KA-01-1234");
    assert_eq!(d.rating_sum, 0);
    assert_eq!(d.review_count, 0);
    let p = read_platform(&store, &owner);
    assert_eq!(p.driver_count, 1);
    let plate_addr = plate_address_of(&"KA-01-1234".to_string());
    match store.read(&plate_addr) {
        Ok(Record::Plate(m)) => {
            assert_eq!(m.license_plate, "KA-01-1234");
            assert_eq!(m.driver_ref, driver_address_of(&identity));
        }
        other => panic!("expected a plate mapping, got {:?}", other),
    }
}

#[test]
fn register_driver_wrong_authority_rejected() {
    let mut store = RegistryStore::new();
    let owner = bytes(&[1]);
    register_platform(&mut store, owner.clone(), "Rapido".to_string()).unwrap();
    let platform_ref = platform_address_of(&owner);
    let intruder = bytes(&[9]);
    let r = register_driver(
        &mut store,
        intruder,
        platform_ref,
        bytes(&[2]),
        "Asha".to_string(),
        "KA-01-1234".to_string(),
    );
    assert_eq!(r, Err(SatchError::InvalidAuthority));
    let p = read_platform(&store, &owner);
    assert_eq!(p.driver_count, 0);
}

#[test]
fn register_driver_missing_platform_rejected() {
    let mut store = RegistryStore::new();
    let r = register_driver(
        &mut store,
        bytes(&[1]),
        bytes(&[0; 32]),
        bytes(&[2]),
        "Asha".to_string(),
        "KA-01-1234".to_string(),
    );
    assert_eq!(r, Err(SatchError::RecordNotFound));
}

#[test]
fn duplicate_plate_rejected_and_mapping_kept() {
    let mut store = RegistryStore::new();
    let owner_a = bytes(&[1]);
    let owner_b = bytes(&[2]);
    register_platform(&mut store, owner_a.clone(), "Rapido".to_string()).unwrap();
    register_platform(&mut store, owner_b.clone(), "Olaf".to_string()).unwrap();
    let first_driver = bytes(&[10]);
    register_driver(
        &mut store,
        owner_a.clone(),
        platform_address_of(&owner_a),
        first_driver.clone(),
        "Asha".to_string(),
        "KA-01-1234".to_string(),
    )
    .unwrap();
    let second = register_driver(
        &mut store,
        owner_b.clone(),
        platform_address_of(&owner_b),
        bytes(&[11]),
        "Bilal".to_string(),
        "KA-01-1234".to_string(),
    );
    assert_eq!(second, Err(SatchError::AlreadyExists));
    let plate_addr = plate_address_of(&"KA-01-1234".to_string());
    match store.read(&plate_addr) {
        Ok(Record::Plate(m)) => assert_eq!(m.driver_ref, driver_address_of(&first_driver)),
        other => panic!("expected a plate mapping, got {:?}", other),
    }
    let second_profile = store.read(&driver_address_of(&bytes(&[11])));
    assert_eq!(second_profile, Err(SatchError::RecordNotFound));
    assert_eq!(read_platform(&store, &owner_b).driver_count, 0);
}

#[test]
fn duplicate_driver_identity_rejected() {
    let mut store = RegistryStore::new();
    let owner = bytes(&[1]);
    register_platform(&mut store, owner.clone(), "Rapido".to_string()).unwrap();
    let identity = bytes(&[2]);
    register_driver(
        &mut store,
        owner.clone(),
        platform_address_of(&owner),
        identity.clone(),
        "Asha".to_string(),
        "KA-01-1234".to_string(),
    )
    .unwrap();
    let again = register_driver(
        &mut store,
        owner.clone(),
        platform_address_of(&owner),
        identity.clone(),
        "Asha".to_string(),
        "KA-99-9999".to_string(),
    );
    assert_eq!(again, Err(SatchError::AlreadyExists));
}

#[test]
fn each_rating_in_range_updates_aggregates() {
    for rating in 1..=5u8 {
        let (mut store, driver_ref) = store_with_driver();
        let r = leave_review(
            &mut store,
            driver_ref.clone(),
            bytes(&[42]),
            rating,
            "tx".to_string(),
        );
        assert_eq!(r, Ok(()));
        let d = read_driver(&store, &bytes(&[2]));
        assert_eq!(d.rating_sum, rating as u64);
        assert_eq!(d.review_count, 1);
    }
}

#[test]
fn out_of_range_rating_rejected_driver_unchanged() {
    let (mut store, driver_ref) = store_with_driver();
    let before = read_driver(&store, &bytes(&[2]));
    for rating in [0u8, 6, 7, 255] {
        let r = leave_review(
            &mut store,
            driver_ref.clone(),
            bytes(&[42]),
            rating,
            "tx".to_string(),
        );
        assert_eq!(r, Err(SatchError::RatingOutOfRange));
    }
    let after = read_driver(&store, &bytes(&[2]));
    assert_eq!(before, after);
}

#[test]
fn review_for_missing_driver_rejected() {
    let mut store = RegistryStore::new();
    let r = leave_review(
        &mut store,
        bytes(&[0; 32]),
        bytes(&[42]),
        3,
        "tx".to_string(),
    );
    assert_eq!(r, Err(SatchError::RecordNotFound));
}

#[test]
fn review_indices_are_contiguous() {
    let (mut store, driver_ref) = store_with_driver();
    for (i, reviewer) in [20u8, 21, 22].iter().enumerate() {
        leave_review(
            &mut store,
            driver_ref.clone(),
            bytes(&[*reviewer]),
            4,
            format!("tx-{}", i),
        )
        .unwrap();
    }
    for (i, reviewer) in [20u8, 21, 22].iter().enumerate() {
        let addr = review_address_of(&driver_ref, i as u64);
        match store.read(&addr) {
            Ok(Record::Review(rv)) => {
                assert_eq!(rv.driver_ref, driver_ref);
                assert_eq!(rv.reviewer_identity, bytes(&[*reviewer]));
                assert_eq!(rv.rating, 4);
                assert_eq!(rv.content_pointer, format!("tx-{}", i));
            }
            other => panic!("expected a review at index {}, got {:?}", i, other),
        }
    }
    assert_eq!(
        store.read(&review_address_of(&driver_ref, 3)),
        Err(SatchError::RecordNotFound)
    );
    assert_eq!(read_driver(&store, &bytes(&[2])).review_count, 3);
}

#[test]
fn full_scenario_three_reviews() {
    let (mut store, driver_ref) = store_with_driver();
    let ratings = [5u8, 4, 1];
    for (i, rating) in ratings.iter().enumerate() {
        let r = leave_review(
            &mut store,
            driver_ref.clone(),
            bytes(&[100 + i as u8]),
            *rating,
            format!("arweave-{}", i),
        );
        assert_eq!(r, Ok(()));
    }
    let d = read_driver(&store, &bytes(&[2]));
    assert_eq!(d.rating_sum, 10);
    assert_eq!(d.review_count, 3);
    for (i, rating) in ratings.iter().enumerate() {
        let addr = review_address_of(&driver_ref, i as u64);
        match store.read(&addr) {
            Ok(Record::Review(rv)) => {
                assert_eq!(rv.rating, *rating);
                assert_eq!(rv.reviewer_identity, bytes(&[100 + i as u8]));
                assert_eq!(rv.content_pointer, format!("arweave-{}", i));
            }
            other => panic!("expected a review at index {}, got {:?}", i, other),
        }
    }
}

#[test]
fn driver_count_overflow_rejected() {
    let mut store = RegistryStore::new();
    let owner = bytes(&[1]);
    let full_platform = Platform {
        owner_identity: owner.clone(),
        name: "Rapido".to_string(),
        verified: false,
        driver_count: u64::MAX,
    };
    store
        .create(platform_address_of(&owner), Record::Platform(full_platform))
        .unwrap();
    let r = register_driver(
        &mut store,
        owner.clone(),
        platform_address_of(&owner),
        bytes(&[2]),
        "Asha".to_string(),
        "KA-01-1234".to_string(),
    );
    assert_eq!(r, Err(SatchError::ArithmeticOverflow));
    assert_eq!(read_platform(&store, &owner).driver_count, u64::MAX);
}

#[test]
fn rating_sum_overflow_rejected() {
    let mut store = RegistryStore::new();
    let identity = bytes(&[2]);
    let driver_ref = driver_address_of(&identity);
    let saturated = DriverProfile {
        owner_identity: identity.clone(),
        platform_ref: bytes(&[0; 32]),
        name: "Asha".to_string(),
        license_plate: "KA-01-1234".to_string(),
        rating_sum: u64::MAX - 2,
        review_count: 7,
    };
    store
        .create(driver_ref.clone(), Record::Driver(saturated.clone()))
        .unwrap();
    let r = leave_review(&mut store, driver_ref.clone(), bytes(&[42]), 3, "tx".to_string());
    assert_eq!(r, Err(SatchError::ArithmeticOverflow));
    match store.read(&driver_ref) {
        Ok(Record::Driver(d)) => assert_eq!(*d, saturated),
        other => panic!("expected the saturated driver, got {:?}", other),
    }
}

#[test]
fn review_count_overflow_rejected() {
    let mut store = RegistryStore::new();
    let identity = bytes(&[2]);
    let driver_ref = driver_address_of(&identity);
    let saturated = DriverProfile {
        owner_identity: identity.clone(),
        platform_ref: bytes(&[0; 32]),
        name: "Asha".to_string(),
        license_plate: "KA-01-1234".to_string(),
        rating_sum: 0,
        review_count: u64::MAX,
    };
    store
        .create(driver_ref.clone(), Record::Driver(saturated))
        .unwrap();
    let r = leave_review(&mut store, driver_ref, bytes(&[42]), 1, "tx".to_string());
    assert_eq!(r, Err(SatchError::ArithmeticOverflow));
}

#[test]
fn create_at_occupied_address_rejected() {
    let mut store = RegistryStore::new();
    let addr = bytes(&[5; 32]);
    let platform = Platform {
        owner_identity: bytes(&[1]),
        name: "Rapido".to_string(),
        verified: false,
        driver_count: 0,
    };
    store.create(addr.clone(), Record::Platform(platform.clone())).unwrap();
    let again = store.create(addr.clone(), Record::Platform(platform));
    assert_eq!(again, Err(SatchError::AlreadyExists));
}

#[test]
fn mutate_missing_address_rejected() {
    let mut store = RegistryStore::new();
    let platform = Platform {
        owner_identity: bytes(&[1]),
        name: "Rapido".to_string(),
        verified: false,
        driver_count: 0,
    };
    let r = store.mutate(&bytes(&[5; 32]), Record::Platform(platform));
    assert_eq!(r, Err(SatchError::RecordNotFound));
    assert_eq!(store.read(&bytes(&[5; 32])), Err(SatchError::RecordNotFound));
}

#[test]
fn derived_addresses_are_stable_and_distinct() {
    let owner_a = bytes(&[1, 2, 3]);
    let owner_b = bytes(&[1, 2, 4]);
    let addr_a = platform_address_of(&owner_a);
    assert_eq!(addr_a.len(), 32);
    assert_eq!(addr_a, platform_address_of(&owner_a));
    assert_ne!(addr_a, platform_address_of(&owner_b));
    assert_ne!(addr_a, owner_a);
    assert_ne!(addr_a, driver_address_of(&owner_a));
    let reviews = review_address_of(&owner_a, 0);
    assert_ne!(reviews, review_address_of(&owner_a, 1));
    assert_eq!(reviews, review_address_of(&owner_a, 0));
}

#[test]
fn review_against_non_driver_record_rejected() {
    let mut store = RegistryStore::new();
    let owner = bytes(&[1]);
    register_platform(&mut store, owner.clone(), "Rapido".to_string()).unwrap();
    let platform_ref = platform_address_of(&owner);
    let r = leave_review(&mut store, platform_ref, bytes(&[42]), 3, "tx".to_string());
    assert_eq!(r, Err(SatchError::RecordNotFound));
}

#[test]
fn register_driver_under_non_platform_record_rejected() {
    let (mut store, driver_ref) = store_with_driver();
    let r = register_driver(
        &mut store,
        bytes(&[1]),
        driver_ref,
        bytes(&[30]),
        "Chitra".to_string(),
        "KA-77-0001".to_string(),
    );
    assert_eq!(r, Err(SatchError::RecordNotFound));
}
