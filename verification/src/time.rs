//! The node's wall clock.
use vstd::prelude::*;

verus! {

/// Relies on `chrono::Utc::now` and `DateTime::timestamp`: the node's wall
/// clock, read as whole UTC epoch seconds. Nothing is assumed of the value
/// it hands back.
#[verifier::external_body]
pub(crate) fn now_seconds() -> i64 {
    chrono::Utc::now().timestamp()
}

} // verus!
