//! A workload resource abstraction for an external autoscaling control loop.
//!
//! The library models Kubernetes workload objects (such as StatefulSets) as
//! plain, verified values: it builds canonical label selectors, reads the
//! declared replica count and the last-modified annotation, filters running
//! pod addresses, and composes the JSON patch that a scale operation sends.
//! Network round-trips themselves are left to the surrounding application.

pub mod decimal;
pub mod error;
pub mod labels;
pub mod patch;
pub mod pods;
pub mod strmap;
pub mod text;
pub mod timestamp;
pub mod workload;

use vstd::prelude::*;

verus! {

/// The reserved annotation key under which a successful scale records when
/// it happened.
pub open spec fn spec_last_modified_key() -> Seq<char> {
    "workload-autoscaler/last_modified"@
}

/// The reserved annotation key, as a value callers can pass around.
pub fn last_modified_key() -> (r: &'static str)
    ensures
        r@ == spec_last_modified_key(),
{
    "workload-autoscaler/last_modified"
}

} // verus!
