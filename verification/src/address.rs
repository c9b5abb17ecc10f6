use vstd::prelude::*;
use vstd::slice::slice_to_vec;
use vstd::utf8::encode_utf8;

verus! {

/// Namespace tag for platform records.
pub const NS_PLATFORM: u8 = 1;

/// Namespace tag for driver profile records.
pub const NS_DRIVER: u8 = 2;

/// Namespace tag for license plate mappings.
pub const NS_PLATE: u8 = 3;

/// Namespace tag for review records.
pub const NS_REVIEW: u8 = 4;

/// The address derived from a namespace tag and a sequence of seed byte
/// strings. Identical inputs always yield the identical address; the
/// derivation itself is performed by the outside key-derivation routine, so
/// nothing more is stated of its value.
pub uninterp spec fn derived_address(namespace: u8, seeds: Seq<Seq<u8>>) -> Seq<u8>;

/// Relies on `anchor_lang::derive_program_address` (Solana program-derived
/// addresses): the returned 32-byte address is a deterministic function of
/// the seed byte strings and the program id alone. The derivation hashes the
/// seeds with a bump byte and retries until the digest is off-curve.
#[verifier::external_body]
fn derive_address(namespace: u8, seeds: &Vec<Vec<u8>>) -> (r: Vec<u8>)
    ensures
        r@ == derived_address(namespace, seeds.deep_view()),
        r@.len() == 32,
{
    let tag = [namespace];
    let mut parts: Vec<&[u8]> = Vec::new();
    parts.push(&tag);
    for seed in seeds.iter() {
        parts.push(seed.as_slice());
    }
    let (address, _bump) = anchor_lang::derive_program_address(&parts, &[0u8; 32]);
    address.to_vec()
}

/// The byte of `x` at little-endian position `i`.
pub open spec fn le_byte(x: u64, i: int) -> u8 {
    ((x >> ((8 * i) as u64)) & 0xff) as u8
}

/// The eight little-endian bytes of `x`.
pub open spec fn u64_le_seq(x: u64) -> Seq<u8> {
    Seq::new(8, |i: int| le_byte(x, i))
}

/// The eight little-endian bytes of `x`, as a vector.
pub fn u64_le_bytes(x: u64) -> (r: Vec<u8>)
    ensures
        r@ == u64_le_seq(x),
{
    let mut r: Vec<u8> = Vec::new();
    let mut i: usize = 0;
    while i < 8
        invariant
            i <= 8,
            r@.len() == i,
            forall|j: int| 0 <= j < i ==> r@[j] == le_byte(x, j),
        decreases 8 - i,
    {
        let shift: u64 = 8 * (i as u64);
        r.push(((x >> shift) & 0xff) as u8);
        i = i + 1;
    }
    proof {
        assert(r@ =~= u64_le_seq(x));
    }
    r
}

/// A copy of a byte string.
pub fn clone_bytes(v: &Vec<u8>) -> (r: Vec<u8>)
    ensures
        r@ == v@,
{
    slice_to_vec(v.as_slice())
}

/// The UTF-8 bytes of a string.
pub fn string_bytes(s: &String) -> (r: Vec<u8>)
    ensures
        r@ == encode_utf8(s@),
{
    slice_to_vec(s.as_str().as_bytes())
}

/// Where the platform owned by `owner_identity` lives.
pub open spec fn platform_address(owner_identity: Seq<u8>) -> Seq<u8> {
    derived_address(NS_PLATFORM, seq![owner_identity])
}

/// Where the profile of the driver identified by `driver_identity` lives.
pub open spec fn driver_address(driver_identity: Seq<u8>) -> Seq<u8> {
    derived_address(NS_DRIVER, seq![driver_identity])
}

/// Where the mapping for `license_plate` lives.
pub open spec fn plate_address(license_plate: Seq<char>) -> Seq<u8> {
    derived_address(NS_PLATE, seq![encode_utf8(license_plate)])
}

/// Where a driver's review with index `index` lives.
pub open spec fn review_address(driver_ref: Seq<u8>, index: u64) -> Seq<u8> {
    derived_address(NS_REVIEW, seq![driver_ref, u64_le_seq(index)])
}

/// Derives the storage address of the platform owned by `owner_identity`.
pub fn platform_address_of(owner_identity: &Vec<u8>) -> (r: Vec<u8>)
    ensures
        r@ == platform_address(owner_identity@),
{
    let mut seeds: Vec<Vec<u8>> = Vec::new();
    seeds.push(clone_bytes(owner_identity));
    proof {
        assert(seeds.deep_view() =~~= seq![owner_identity@]);
    }
    derive_address(NS_PLATFORM, &seeds)
}

/// Derives the storage address of the profile of `driver_identity`.
pub fn driver_address_of(driver_identity: &Vec<u8>) -> (r: Vec<u8>)
    ensures
        r@ == driver_address(driver_identity@),
{
    let mut seeds: Vec<Vec<u8>> = Vec::new();
    seeds.push(clone_bytes(driver_identity));
    proof {
        assert(seeds.deep_view() =~~= seq![driver_identity@]);
    }
    derive_address(NS_DRIVER, &seeds)
}

/// Derives the storage address of the mapping for `license_plate`.
pub fn plate_address_of(license_plate: &String) -> (r: Vec<u8>)
    ensures
        r@ == plate_address(license_plate@),
{
    let mut seeds: Vec<Vec<u8>> = Vec::new();
    seeds.push(string_bytes(license_plate));
    proof {
        assert(seeds.deep_view() =~~= seq![encode_utf8(license_plate@)]);
    }
    derive_address(NS_PLATE, &seeds)
}

/// Derives the storage address of the review of the driver at `driver_ref`
/// with index `index`.
pub fn review_address_of(driver_ref: &Vec<u8>, index: u64) -> (r: Vec<u8>)
    ensures
        r@ == review_address(driver_ref@, index),
{
    let mut seeds: Vec<Vec<u8>> = Vec::new();
    seeds.push(clone_bytes(driver_ref));
    seeds.push(u64_le_bytes(index));
    proof {
        assert(seeds.deep_view() =~~= seq![driver_ref@, u64_le_seq(index)]);
    }
    derive_address(NS_REVIEW, &seeds)
}

} // verus!
