use vstd::prelude::*;

verus! {

/// An organization that registers and vouches for drivers. One platform per
/// owner identity; `driver_count` grows only on successful driver
/// registration under this platform.
#[derive(Clone, Debug, PartialEq, Eq)]
pub struct Platform {
    /// The identity that authored the platform and authorizes its driver
    /// registrations.
    pub owner_identity: Vec<u8>,
    pub name: String,
    /// Defaults to `false`; flipping it is outside the three core operations.
    pub verified: bool,
    pub driver_count: u64,
}

/// A service provider's permanent record, holding its aggregate rating stats.
/// `rating_sum` and `review_count` only ever move forward.
#[derive(Clone, Debug, PartialEq, Eq)]
pub struct DriverProfile {
    /// The driver's own identity.
    pub owner_identity: Vec<u8>,
    /// The address of the platform the driver was registered under.
    pub platform_ref: Vec<u8>,
    pub name: String,
    pub license_plate: String,
    pub rating_sum: u64,
    pub review_count: u64,
}

/// The uniqueness index from a physical license plate to the driver profile
/// registered with it; created atomically alongside that profile.
#[derive(Clone, Debug, PartialEq, Eq)]
pub struct LicensePlateMapping {
    pub license_plate: String,
    /// The address of the driver profile that claimed the plate.
    pub driver_ref: Vec<u8>,
}

/// One immutable rating event for a driver. Its address carries the driver's
/// review count at the moment of creation, so indices per driver are
/// contiguous from zero.
#[derive(Clone, Debug, PartialEq, Eq)]
pub struct Review {
    /// The address of the reviewed driver's profile.
    pub driver_ref: Vec<u8>,
    pub reviewer_identity: Vec<u8>,
    /// Always within 1..=5.
    pub rating: u8,
    /// An opaque pointer to externally stored review text; stored verbatim,
    /// never parsed or dereferenced here.
    pub content_pointer: String,
}

/// What the store holds at one address.
#[derive(Clone, Debug, PartialEq, Eq)]
pub enum Record {
    Platform(Platform),
    Driver(DriverProfile),
    Plate(LicensePlateMapping),
    Review(Review),
}

/// The mathematical value of a [`Platform`].
pub ghost struct PlatformModel {
    pub owner_identity: Seq<u8>,
    pub name: Seq<char>,
    pub verified: bool,
    pub driver_count: u64,
}

/// The mathematical value of a [`DriverProfile`].
pub ghost struct DriverModel {
    pub owner_identity: Seq<u8>,
    pub platform_ref: Seq<u8>,
    pub name: Seq<char>,
    pub license_plate: Seq<char>,
    pub rating_sum: u64,
    pub review_count: u64,
}

/// The mathematical value of a [`LicensePlateMapping`].
pub ghost struct PlateModel {
    pub license_plate: Seq<char>,
    pub driver_ref: Seq<u8>,
}

/// The mathematical value of a [`Review`].
pub ghost struct ReviewModel {
    pub driver_ref: Seq<u8>,
    pub reviewer_identity: Seq<u8>,
    pub rating: u8,
    pub content_pointer: Seq<char>,
}

/// The mathematical value of a [`Record`].
pub ghost enum RecordModel {
    Platform(PlatformModel),
    Driver(DriverModel),
    Plate(PlateModel),
    Review(ReviewModel),
}

impl View for Platform {
    type V = PlatformModel;

    open spec fn view(&self) -> PlatformModel {
        PlatformModel {
            owner_identity: self.owner_identity@,
            name: self.name@,
            verified: self.verified,
            driver_count: self.driver_count,
        }
    }
}

impl View for DriverProfile {
    type V = DriverModel;

    open spec fn view(&self) -> DriverModel {
        DriverModel {
            owner_identity: self.owner_identity@,
            platform_ref: self.platform_ref@,
            name: self.name@,
            license_plate: self.license_plate@,
            rating_sum: self.rating_sum,
            review_count: self.review_count,
        }
    }
}

impl View for LicensePlateMapping {
    type V = PlateModel;

    open spec fn view(&self) -> PlateModel {
        PlateModel { license_plate: self.license_plate@, driver_ref: self.driver_ref@ }
    }
}

impl View for Review {
    type V = ReviewModel;

    open spec fn view(&self) -> ReviewModel {
        ReviewModel {
            driver_ref: self.driver_ref@,
            reviewer_identity: self.reviewer_identity@,
            rating: self.rating,
            content_pointer: self.content_pointer@,
        }
    }
}

impl View for Record {
    type V = RecordModel;

    open spec fn view(&self) -> RecordModel {
        match self {
            Record::Platform(p) => RecordModel::Platform(p@),
            Record::Driver(d) => RecordModel::Driver(d@),
            Record::Plate(m) => RecordModel::Plate(m@),
            Record::Review(r) => RecordModel::Review(r@),
        }
    }
}

} // verus!
