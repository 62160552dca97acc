//! Wall-clock access for the provisioning and write paths.

use vstd::prelude::*;

verus! {

/// Relies on chrono's `Utc::now` and `DateTime::timestamp`: the current
/// wall-clock instant as whole seconds since the Unix epoch. Nothing is
/// assumed of the value; callers must hold for every instant the clock
/// could report.
#[verifier::external_body]
pub fn now_unix_seconds() -> i64 {
    chrono::Utc::now().timestamp()
}

} // verus!
