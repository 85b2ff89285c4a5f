//! The time of a run.

use vstd::prelude::*;

verus! {

/// `Utc::now` of `chrono`, written by `DateTime::to_rfc3339`: the time at
/// which it is called. Nothing is said of the result, which differs from
/// call to call.
#[verifier::external_body]
pub(crate) fn current_time() -> String {
    chrono::Utc::now().to_rfc3339()
}

} // verus!
