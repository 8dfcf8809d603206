//! Fresh identities and the current time, from the uuid and chrono crates.
use vstd::prelude::*;

verus! {

/// Relies on `uuid::Uuid::new_v4` for a random identity, written by its
/// `Display` impl in the hyphenated form of 36 characters.
#[verifier::external_body]
pub(crate) fn new_project_id() -> (r: String)
    ensures
        r@.len() == 36,
{
    uuid::Uuid::new_v4().to_string()
}

/// Relies on `chrono::Utc::now` and `DateTime::to_rfc3339` for the current
/// time as an RFC 3339 string.
#[verifier::external_body]
pub(crate) fn now_rfc3339() -> (r: String) {
    chrono::Utc::now().to_rfc3339()
}

} // verus!
