use vstd::prelude::*;

use crate::address::{
    clone_bytes, driver_address, driver_address_of, plate_address, plate_address_of,
    platform_address, platform_address_of, review_address, review_address_of,
};
use crate::errors::SatchError;
use crate::records::{
    DriverModel, DriverProfile, LicensePlateMapping, Platform, PlateModel, PlatformModel, Record,
    RecordModel, Review, ReviewModel,
};
use crate::store::{bytes_eq, RegistryStore, StoreModel};

verus! {

/// What registering a platform does to the store: the platform record is
/// created at the address derived from its owner's identity, initialized
/// unverified with no drivers; if that address already holds a record, the
/// call fails `AlreadyExists` (re-registration is rejected, never a no-op).
pub open spec fn spec_register_platform(
    s: StoreModel,
    owner_identity: Seq<u8>,
    name: Seq<char>,
) -> Result<StoreModel, SatchError> {
    let addr = platform_address(owner_identity);
    if s.contains_key(addr) {
        Err(SatchError::AlreadyExists)
    } else {
        Ok(
            s.insert(
                addr,
                RecordModel::Platform(
                    PlatformModel { owner_identity, name, verified: false, driver_count: 0 },
                ),
            ),
        )
    }
}

/// What registering a driver does to the store. In order: a platform record
/// must sit at `platform_ref` (`RecordNotFound`, also when a record of
/// another kind sits there), the presented authority must
/// be its owner identity (`InvalidAuthority`), its driver counter must not
/// wrap (`ArithmeticOverflow`), and both the driver address and the plate
/// address must be free (`AlreadyExists`, which is what enforces global
/// plate uniqueness). Then the profile and the mapping are created and the
/// counter bumped, together or not at all.
pub open spec fn spec_register_driver(
    s: StoreModel,
    platform_authority: Seq<u8>,
    platform_ref: Seq<u8>,
    driver_identity: Seq<u8>,
    name: Seq<char>,
    license_plate: Seq<char>,
) -> Result<StoreModel, SatchError> {
    if !s.contains_key(platform_ref) {
        Err(SatchError::RecordNotFound)
    } else {
        match s[platform_ref] {
            RecordModel::Platform(p) => {
                if p.owner_identity != platform_authority {
                    Err(SatchError::InvalidAuthority)
                } else if p.driver_count == u64::MAX {
                    Err(SatchError::ArithmeticOverflow)
                } else {
                    let da = driver_address(driver_identity);
                    let pla = plate_address(license_plate);
                    if s.contains_key(da) || s.contains_key(pla) || da == pla {
                        Err(SatchError::AlreadyExists)
                    } else {
                        Ok(
                            s.insert(
                                platform_ref,
                                RecordModel::Platform(
                                    PlatformModel {
                                        driver_count: (p.driver_count + 1) as u64,
                                        ..p
                                    },
                                ),
                            ).insert(
                                da,
                                RecordModel::Driver(
                                    DriverModel {
                                        owner_identity: driver_identity,
                                        platform_ref,
                                        name,
                                        license_plate,
                                        rating_sum: 0,
                                        review_count: 0,
                                    },
                                ),
                            ).insert(
                                pla,
                                RecordModel::Plate(PlateModel { license_plate, driver_ref: da }),
                            ),
                        )
                    }
                }
            },
            _ => Err(SatchError::RecordNotFound),
        }
    }
}

/// What leaving a review does to the store. In order: the rating must lie in
/// 1..=5 (`RatingOutOfRange`, checked before anything else is looked at), a
/// driver record must sit at `driver_ref` (`RecordNotFound`, also when a
/// record of another kind sits there), the review slot for the driver's current review count
/// must be free (`AlreadyExists`), and the driver's counters must not wrap
/// (`ArithmeticOverflow`). Then the immutable review is created at that slot
/// and the driver's aggregates move forward, together or not at all.
pub open spec fn spec_leave_review(
    s: StoreModel,
    driver_ref: Seq<u8>,
    reviewer_identity: Seq<u8>,
    rating: u8,
    content_pointer: Seq<char>,
) -> Result<StoreModel, SatchError> {
    if rating < 1 || rating > 5 {
        Err(SatchError::RatingOutOfRange)
    } else if !s.contains_key(driver_ref) {
        Err(SatchError::RecordNotFound)
    } else {
        match s[driver_ref] {
            RecordModel::Driver(d) => {
                let ra = review_address(driver_ref, d.review_count);
                if s.contains_key(ra) {
                    Err(SatchError::AlreadyExists)
                } else if d.rating_sum + rating > u64::MAX || d.review_count + 1 > u64::MAX {
                    Err(SatchError::ArithmeticOverflow)
                } else {
                    Ok(
                        s.insert(
                            driver_ref,
                            RecordModel::Driver(
                                DriverModel {
                                    rating_sum: (d.rating_sum + rating) as u64,
                                    review_count: (d.review_count + 1) as u64,
                                    ..d
                                },
                            ),
                        ).insert(
                            ra,
                            RecordModel::Review(
                                ReviewModel {
                                    driver_ref,
                                    reviewer_identity,
                                    rating,
                                    content_pointer,
                                },
                            ),
                        ),
                    )
                }
            },
            _ => Err(SatchError::RecordNotFound),
        }
    }
}

/// Registers `owner_identity` as a platform named `name`.
pub fn register_platform(store: &mut RegistryStore, owner_identity: Vec<u8>, name: String) -> (r:
    Result<(), SatchError>)
    requires
        old(store).wf(),
    ensures
        final(store).wf(),
        (match spec_register_platform(old(store)@, owner_identity@, name@) {
            Ok(s1) => r == Ok::<(), SatchError>(()) && final(store)@ == s1,
            Err(e) => r == Err::<(), SatchError>(e) && final(store)@ == old(store)@,
        }),
{
    let address = platform_address_of(&owner_identity);
    let platform = Platform { owner_identity, name, verified: false, driver_count: 0 };
    store.create(address, Record::Platform(platform))
}

/// Registers the driver `driver_identity` with plate `license_plate` under
/// the platform at `platform_ref`, on the authority of
/// `platform_authority`.
pub fn register_driver(
    store: &mut RegistryStore,
    platform_authority: Vec<u8>,
    platform_ref: Vec<u8>,
    driver_identity: Vec<u8>,
    name: String,
    license_plate: String,
) -> (r: Result<(), SatchError>)
    requires
        old(store).wf(),
    ensures
        final(store).wf(),
        (match spec_register_driver(
            old(store)@,
            platform_authority@,
            platform_ref@,
            driver_identity@,
            name@,
            license_plate@,
        ) {
            Ok(s1) => r == Ok::<(), SatchError>(()) && final(store)@ == s1,
            Err(e) => r == Err::<(), SatchError>(e) && final(store)@ == old(store)@,
        }),
{
    let updated_platform: Platform;
    match store.read(&platform_ref) {
        Err(_) => {
            return Err(SatchError::RecordNotFound);
        },
        Ok(Record::Platform(p)) => {
            if !bytes_eq(&p.owner_identity, &platform_authority) {
                return Err(SatchError::InvalidAuthority);
            }
            if p.driver_count == u64::MAX {
                return Err(SatchError::ArithmeticOverflow);
            }
            updated_platform = Platform {
                owner_identity: clone_bytes(&p.owner_identity),
                name: p.name.clone(),
                verified: p.verified,
                driver_count: p.driver_count + 1,
            };
        },
        Ok(_) => {
            return Err(SatchError::RecordNotFound);
        },
    }
    let da = driver_address_of(&driver_identity);
    let pla = plate_address_of(&license_plate);
    let driver_taken = match store.read(&da) {
        Ok(_) => true,
        Err(_) => false,
    };
    let plate_taken = match store.read(&pla) {
        Ok(_) => true,
        Err(_) => false,
    };
    if driver_taken || plate_taken || bytes_eq(&da, &pla) {
        return Err(SatchError::AlreadyExists);
    }
    let profile = DriverProfile {
        owner_identity: driver_identity,
        platform_ref: clone_bytes(&platform_ref),
        name,
        license_plate: license_plate.clone(),
        rating_sum: 0,
        review_count: 0,
    };
    let mapping = LicensePlateMapping { license_plate, driver_ref: clone_bytes(&da) };
    // The platform is present and both target addresses are free and
    // distinct, so none of the three writes below can fail: the operation
    // commits as a whole.
    let _mutate_result = store.mutate(&platform_ref, Record::Platform(updated_platform));
    let _create_driver_result = store.create(da, Record::Driver(profile));
    let _create_plate_result = store.create(pla, Record::Plate(mapping));
    Ok(())
}

/// Leaves an immutable review with `rating` and `content_pointer` for the
/// driver at `driver_ref`, attributed to `reviewer_identity`, at the next
/// free review index.
pub fn leave_review(
    store: &mut RegistryStore,
    driver_ref: Vec<u8>,
    reviewer_identity: Vec<u8>,
    rating: u8,
    content_pointer: String,
) -> (r: Result<(), SatchError>)
    requires
        old(store).wf(),
    ensures
        final(store).wf(),
        (match spec_leave_review(
            old(store)@,
            driver_ref@,
            reviewer_identity@,
            rating,
            content_pointer@,
        ) {
            Ok(s1) => r == Ok::<(), SatchError>(()) && final(store)@ == s1,
            Err(e) => r == Err::<(), SatchError>(e) && final(store)@ == old(store)@,
        }),
{
    if rating < 1 || rating > 5 {
        return Err(SatchError::RatingOutOfRange);
    }
    let updated_driver: DriverProfile;
    let review_index: u64;
    match store.read(&driver_ref) {
        Err(_) => {
            return Err(SatchError::RecordNotFound);
        },
        Ok(Record::Driver(d)) => {
            review_index = d.review_count;
            let ra_probe = review_address_of(&driver_ref, review_index);
            match store.read(&ra_probe) {
                Ok(_) => {
                    return Err(SatchError::AlreadyExists);
                },
                Err(_) => {},
            }
            if d.rating_sum > u64::MAX - (rating as u64) || d.review_count == u64::MAX {
                return Err(SatchError::ArithmeticOverflow);
            }
            updated_driver = DriverProfile {
                owner_identity: clone_bytes(&d.owner_identity),
                platform_ref: clone_bytes(&d.platform_ref),
                name: d.name.clone(),
                license_plate: d.license_plate.clone(),
                rating_sum: d.rating_sum + (rating as u64),
                review_count: d.review_count + 1,
            };
        },
        Ok(_) => {
            return Err(SatchError::RecordNotFound);
        },
    }
    let ra = review_address_of(&driver_ref, review_index);
    let review = Review {
        driver_ref: clone_bytes(&driver_ref),
        reviewer_identity,
        rating,
        content_pointer,
    };
    // The driver is present and its review slot is free, so neither write
    // below can fail: the review and the aggregate update commit as a whole.
    let _mutate_result = store.mutate(&driver_ref, Record::Driver(updated_driver));
    let _create_result = store.create(ra, Record::Review(review));
    Ok(())
}

} // verus!
