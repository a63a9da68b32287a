use vstd::prelude::*;

use crate::types::{CorrelationId, UUID_LEN};
use crate::wire::{be_bytes, be_value};

verus! {

/// The error of the `uuid` crate, carried through and never inspected.
#[verifier::external_type_specification]
#[verifier::external_body]
pub struct ExUuidError(uuid::Error);

/// Whether `id` has the shape of a random identifier: its seventh byte starts
/// with the version nibble 4 and its ninth byte with the variant bits `10`.
pub open spec fn is_random(id: CorrelationId) -> bool {
    let bytes = be_bytes(id as nat, UUID_LEN as nat);
    &&& bytes[6] / 16 == 4
    &&& bytes[8] / 64 == 2
}

/// A fresh identifier from `uuid::Uuid::new_v4`, read as a number by
/// `Uuid::as_u128` (most significant byte first).
///
/// Which identifier comes back is left open: it is drawn from the operating
/// system's random source. Trusted: the result carries the version and variant
/// marks that `new_v4` sets on every identifier it makes. `new_v4` panics if
/// the operating system cannot supply random bytes.
#[verifier::external_body]
pub(crate) fn new_v4() -> (id: CorrelationId)
    ensures
        is_random(id),
{
    uuid::Uuid::new_v4().as_u128()
}

/// Reads an identifier with `uuid::Uuid::from_slice`, as a number by
/// `Uuid::as_u128`.
///
/// Trusted: `from_slice` accepts exactly the slices of sixteen bytes, and the
/// identifier it builds holds those bytes in order, so its number is their
/// big-endian value.
#[verifier::external_body]
pub(crate) fn from_slice(b: &[u8]) -> (r: Result<CorrelationId, uuid::Error>)
    ensures
        r is Ok <==> b@.len() == UUID_LEN,
        r matches Ok(id) ==> id as nat == be_value(b@),
{
    match uuid::Uuid::from_slice(b) {
        Ok(u) => Ok(u.as_u128()),
        Err(e) => Err(e),
    }
}

} // verus!
