use vstd::prelude::*;

use crate::address::{driver_address, plate_address, platform_address, review_address};
use crate::errors::SatchError;
use crate::ops::{spec_leave_review, spec_register_driver, spec_register_platform};
use crate::records::{PlateModel, PlatformModel, RecordModel, ReviewModel};
use crate::store::StoreModel;

verus! {

/// For every rating within 1..=5, leaving a review for a registered driver
/// whose next review slot is free and whose counters have room succeeds, and
/// afterwards the driver's rating sum has grown by exactly that rating and
/// its review count by exactly one. (On any failure the executable operation
/// leaves the store untouched, as its contract states.)
pub proof fn lemma_review_in_range_succeeds(
    s: StoreModel,
    driver_ref: Seq<u8>,
    reviewer_identity: Seq<u8>,
    rating: u8,
    content_pointer: Seq<char>,
)
    requires
        1 <= rating <= 5,
        s.contains_key(driver_ref),
        s[driver_ref] is Driver,
        !s.contains_key(review_address(driver_ref, (s[driver_ref]->Driver_0).review_count)),
        (s[driver_ref]->Driver_0).rating_sum + rating <= u64::MAX,
        (s[driver_ref]->Driver_0).review_count < u64::MAX,
    ensures
        spec_leave_review(s, driver_ref, reviewer_identity, rating, content_pointer) is Ok,
        ({
            let d = s[driver_ref]->Driver_0;
            let s1 = spec_leave_review(
                s,
                driver_ref,
                reviewer_identity,
                rating,
                content_pointer,
            )->Ok_0;
            &&& s1.contains_key(driver_ref)
            &&& s1[driver_ref] is Driver
            &&& (s1[driver_ref]->Driver_0).rating_sum == d.rating_sum + rating
            &&& (s1[driver_ref]->Driver_0).review_count == d.review_count + 1
            &&& (s1[driver_ref]->Driver_0).owner_identity == d.owner_identity
            &&& (s1[driver_ref]->Driver_0).platform_ref == d.platform_ref
            &&& (s1[driver_ref]->Driver_0).name == d.name
            &&& (s1[driver_ref]->Driver_0).license_plate == d.license_plate
        }),
{
    let d = s[driver_ref]->Driver_0;
    let ra = review_address(driver_ref, d.review_count);
    assert(ra != driver_ref);
}

/// A rating of zero, or of six and above, is rejected as `RatingOutOfRange`
/// before anything else is even looked at; the executable operation then
/// leaves the driver — and the whole store — byte for byte unchanged, as its
/// contract states.
pub proof fn lemma_review_out_of_range_rejected(
    s: StoreModel,
    driver_ref: Seq<u8>,
    reviewer_identity: Seq<u8>,
    rating: u8,
    content_pointer: Seq<char>,
)
    requires
        rating == 0 || rating >= 6,
    ensures
        spec_leave_review(s, driver_ref, reviewer_identity, rating, content_pointer) == Err::<
            StoreModel,
            SatchError,
        >(SatchError::RatingOutOfRange),
{
}

/// Registering the same owner identity as a platform twice: the first call
/// succeeds, the second fails `AlreadyExists`, and the first platform's
/// fields stand unchanged in the store the second call saw.
pub proof fn lemma_platform_reregistration_rejected(
    s: StoreModel,
    owner_identity: Seq<u8>,
    first_name: Seq<char>,
    second_name: Seq<char>,
)
    requires
        spec_register_platform(s, owner_identity, first_name) is Ok,
    ensures
        ({
            let s1 = spec_register_platform(s, owner_identity, first_name)->Ok_0;
            &&& spec_register_platform(s1, owner_identity, second_name) == Err::<
                StoreModel,
                SatchError,
            >(SatchError::AlreadyExists)
            &&& s1[platform_address(owner_identity)] == RecordModel::Platform(
                PlatformModel {
                    owner_identity,
                    name: first_name,
                    verified: false,
                    driver_count: 0,
                },
            )
        }),
{
}

/// Two drivers claiming the same license plate, under any platforms: after
/// the first registration succeeds, a second registration of that plate for
/// a different driver fails `AlreadyExists` — even before its own driver
/// address is examined — and the plate mapping still points to the first
/// driver. The second call is assumed to get past the checks that precede
/// the address collision: its platform exists, its authority matches, and
/// its driver counter has room.
pub proof fn lemma_duplicate_plate_rejected(
    s: StoreModel,
    first_authority: Seq<u8>,
    first_platform_ref: Seq<u8>,
    first_driver: Seq<u8>,
    first_name: Seq<char>,
    second_authority: Seq<u8>,
    second_platform_ref: Seq<u8>,
    second_driver: Seq<u8>,
    second_name: Seq<char>,
    license_plate: Seq<char>,
)
    requires
        spec_register_driver(
            s,
            first_authority,
            first_platform_ref,
            first_driver,
            first_name,
            license_plate,
        ) is Ok,
        ({
            let s1 = spec_register_driver(
                s,
                first_authority,
                first_platform_ref,
                first_driver,
                first_name,
                license_plate,
            )->Ok_0;
            &&& s1.contains_key(second_platform_ref)
            &&& s1[second_platform_ref] is Platform
            &&& (s1[second_platform_ref]->Platform_0).owner_identity == second_authority
            &&& (s1[second_platform_ref]->Platform_0).driver_count < u64::MAX
        }),
    ensures
        ({
            let s1 = spec_register_driver(
                s,
                first_authority,
                first_platform_ref,
                first_driver,
                first_name,
                license_plate,
            )->Ok_0;
            &&& spec_register_driver(
                s1,
                second_authority,
                second_platform_ref,
                second_driver,
                second_name,
                license_plate,
            ) == Err::<StoreModel, SatchError>(SatchError::AlreadyExists)
            &&& s1[plate_address(license_plate)] == RecordModel::Plate(
                PlateModel { license_plate, driver_ref: driver_address(first_driver) },
            )
        }),
{
}

/// Registering a driver on the authority of anyone but the platform's owner
/// identity fails `InvalidAuthority`; the executable operation then leaves
/// the store — the platform's driver count included — unchanged, as its
/// contract states.
pub proof fn lemma_wrong_authority_rejected(
    s: StoreModel,
    platform_authority: Seq<u8>,
    platform_ref: Seq<u8>,
    driver_identity: Seq<u8>,
    name: Seq<char>,
    license_plate: Seq<char>,
)
    requires
        s.contains_key(platform_ref),
        s[platform_ref] is Platform,
        (s[platform_ref]->Platform_0).owner_identity != platform_authority,
    ensures
        spec_register_driver(
            s,
            platform_authority,
            platform_ref,
            driver_identity,
            name,
            license_plate,
        ) == Err::<StoreModel, SatchError>(SatchError::InvalidAuthority),
{
}

/// One submission of a sequence of reviews against one driver.
pub ghost struct ReviewInput {
    pub reviewer_identity: Seq<u8>,
    pub rating: u8,
    pub content_pointer: Seq<char>,
}

/// The store after leaving each review of `inputs` in turn against the
/// driver at `driver_ref`, stopping at the first failure. The store
/// serializes racing submissions against one driver (each operation holds
/// the store exclusively), so any interleaving of concurrent calls is some
/// such sequence.
pub open spec fn spec_leave_reviews(
    s: StoreModel,
    driver_ref: Seq<u8>,
    inputs: Seq<ReviewInput>,
) -> Result<StoreModel, SatchError>
    decreases inputs.len(),
{
    if inputs.len() == 0 {
        Ok(s)
    } else {
        match spec_leave_review(
            s,
            driver_ref,
            inputs[0].reviewer_identity,
            inputs[0].rating,
            inputs[0].content_pointer,
        ) {
            Ok(s1) => spec_leave_reviews(s1, driver_ref, inputs.drop_first()),
            Err(e) => Err(e),
        }
    }
}

/// A run of successful reviews touches nothing but the driver's own record
/// and the fresh review slots: every record at any other occupied address
/// survives unchanged.
pub proof fn lemma_reviews_preserve_other_records(
    s: StoreModel,
    driver_ref: Seq<u8>,
    inputs: Seq<ReviewInput>,
    address: Seq<u8>,
)
    requires
        spec_leave_reviews(s, driver_ref, inputs) is Ok,
        s.contains_key(address),
        address != driver_ref,
    ensures
        spec_leave_reviews(s, driver_ref, inputs)->Ok_0.contains_key(address),
        spec_leave_reviews(s, driver_ref, inputs)->Ok_0[address] == s[address],
    decreases inputs.len(),
{
    if inputs.len() > 0 {
        let sm = spec_leave_review(
            s,
            driver_ref,
            inputs[0].reviewer_identity,
            inputs[0].rating,
            inputs[0].content_pointer,
        )->Ok_0;
        lemma_reviews_preserve_other_records(sm, driver_ref, inputs.drop_first(), address);
    }
}

/// A run of N successful reviews against one driver fills exactly the review
/// slots count, count+1, ..., count+N-1 — no gaps, no reused slot — and moves
/// the driver's review count forward by exactly N. The record in each slot
/// holds the fields of the submission that created it.
pub proof fn lemma_review_indices_contiguous(
    s: StoreModel,
    driver_ref: Seq<u8>,
    inputs: Seq<ReviewInput>,
)
    requires
        s.contains_key(driver_ref),
        s[driver_ref] is Driver,
        spec_leave_reviews(s, driver_ref, inputs) is Ok,
    ensures
        ({
            let k = (s[driver_ref]->Driver_0).review_count;
            let s1 = spec_leave_reviews(s, driver_ref, inputs)->Ok_0;
            &&& s1.contains_key(driver_ref)
            &&& s1[driver_ref] is Driver
            &&& (s1[driver_ref]->Driver_0).review_count == k + inputs.len()
            &&& forall|i: int|
                0 <= i < inputs.len() ==> {
                    &&& #[trigger] s1.contains_key(review_address(driver_ref, (k + i) as u64))
                    &&& s1[review_address(driver_ref, (k + i) as u64)] == RecordModel::Review(
                        ReviewModel {
                            driver_ref,
                            reviewer_identity: inputs[i].reviewer_identity,
                            rating: inputs[i].rating,
                            content_pointer: inputs[i].content_pointer,
                        },
                    )
                }
        }),
    decreases inputs.len(),
{
    let k = (s[driver_ref]->Driver_0).review_count;
    let s1 = spec_leave_reviews(s, driver_ref, inputs)->Ok_0;
    if inputs.len() > 0 {
        let first = inputs[0];
        let ra0 = review_address(driver_ref, k);
        let sm = spec_leave_review(
            s,
            driver_ref,
            first.reviewer_identity,
            first.rating,
            first.content_pointer,
        )->Ok_0;
        assert(ra0 != driver_ref);
        assert(sm[driver_ref] is Driver);
        assert((sm[driver_ref]->Driver_0).review_count == k + 1);
        lemma_review_indices_contiguous(sm, driver_ref, inputs.drop_first());
        lemma_reviews_preserve_other_records(sm, driver_ref, inputs.drop_first(), ra0);
        let rest = spec_leave_reviews(sm, driver_ref, inputs.drop_first())->Ok_0;
        assert(rest == s1);
        assert forall|i: int| 0 <= i < inputs.len() implies {
            &&& #[trigger] s1.contains_key(review_address(driver_ref, (k + i) as u64))
            &&& s1[review_address(driver_ref, (k + i) as u64)] == RecordModel::Review(
                ReviewModel {
                    driver_ref,
                    reviewer_identity: inputs[i].reviewer_identity,
                    rating: inputs[i].rating,
                    content_pointer: inputs[i].content_pointer,
                },
            )
        } by {
            if i == 0 {
                assert(s1.contains_key(ra0));
                assert(s1[ra0] == sm[ra0]);
            } else {
                assert(inputs.drop_first()[i - 1] == inputs[i]);
                assert((k + 1 + (i - 1)) as u64 == (k + i) as u64);
            }
        }
    }
}

} // verus!
