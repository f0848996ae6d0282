//! Fresh identifiers for threat records.

use vstd::prelude::*;

verus! {

/// Relies on `uuid::Uuid::new_v4`: a fresh random version-4 UUID.  The
/// value is random, so nothing is promised of it; the call aborts only if
/// the platform's randomness source fails.
#[verifier::external_body]
pub(crate) fn fresh_threat_id() -> String {
    format!("threat_{}", uuid::Uuid::new_v4())
}

} // verus!
