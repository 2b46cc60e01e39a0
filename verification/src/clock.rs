//! The current-time source, an external collaborator: the rest of the library
//! takes the timestamp it yields as an ordinary string argument, so that a
//! fixed string can stand in for it.

use vstd::prelude::*;

verus! {

/// Relies on chrono's `Utc::now` and `DateTime::to_rfc3339`: reads the system
/// clock and renders it as an RFC 3339 date-and-time string. The result
/// depends on the moment of the call, so nothing is assumed about its value.
#[verifier::external_body]
pub(crate) fn now_rfc3339() -> String {
    chrono::Utc::now().to_rfc3339()
}

} // verus!
