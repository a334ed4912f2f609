//! Device and session identifiers, carried as 128-bit values.

use vstd::prelude::*;

verus! {

/// What parsing a device identifier string as a UUID yields: the 128-bit
/// value, or nothing where the string is not a UUID. The result depends
/// on the characters alone.
pub uninterp spec fn uuid_of(s: Seq<char>) -> Option<u128>;

/// Relies on uuid::Uuid::parse_str and Uuid::as_u128: parsing either
/// yields the UUID's 128-bit value or fails, as a pure function of the
/// input characters.
#[verifier::external_body]
pub(crate) fn parse_device_uuid(s: &String) -> (r: Option<u128>)
    ensures
        r == uuid_of(s@),
{
    match uuid::Uuid::parse_str(s.as_str()) {
        Ok(u) => Some(u.as_u128()),
        Err(_) => None,
    }
}

/// Relies on uuid::Uuid::new_v4: a freshly generated random identifier.
/// Nothing is promised of the value. The call aborts only if the
/// operating system's randomness source fails, an environmental fault
/// outside any input's control.
#[verifier::external_body]
pub(crate) fn fresh_uuid() -> u128 {
    uuid::Uuid::new_v4().as_u128()
}

} // verus!
