use vstd::prelude::*;

pub mod classifier;
pub mod config;
pub mod digest;
pub mod fences;
pub mod greader;
pub mod processor;
pub mod schedule;
pub mod text;

verus! {

/// Whether an HTTP status code is in the success class (200 through 299).
pub open spec fn spec_is_success(status: u16) -> bool {
    200 <= status && status <= 299
}

/// Decides whether an HTTP status code reports success.
pub fn is_success(status: u16) -> (r: bool)
    ensures
        r == spec_is_success(status),
{
    200 <= status && status <= 299
}

} // verus!
