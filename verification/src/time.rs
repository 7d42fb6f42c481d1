//! Time values that the library carries: durations of trials and the
//! instants at which samples were taken.

use vstd::prelude::*;
use std::time::{Duration, Instant};

verus! {

/// An instant of a monotonic clock. The library stores instants but never
/// reads them.
#[verifier::external_type_specification]
#[verifier::external_body]
pub struct ExInstant(Instant);

/// The duration that `Duration::from_secs` returns for `secs` whole seconds.
pub uninterp spec fn duration_of_secs(secs: u64) -> Duration;

/// The number of whole seconds in a duration, as `Duration::as_secs`
/// returns it.
pub uninterp spec fn duration_whole_secs(d: Duration) -> u64;

/// Wraps `std::time::Duration::from_secs`: its result depends on the number
/// of seconds alone, and is named `duration_of_secs(secs)`; as std
/// documents, it holds exactly `secs` whole seconds.
#[verifier::external_body]
pub fn duration_from_secs(secs: u64) -> (d: Duration)
    ensures
        d == duration_of_secs(secs),
        duration_whole_secs(d) == secs,
{
    Duration::from_secs(secs)
}

/// Wraps `std::time::Duration::as_secs`: the number of whole seconds in a
/// duration, named `duration_whole_secs(d)`.
#[verifier::external_body]
pub fn duration_as_secs(d: &Duration) -> (r: u64)
    ensures
        r == duration_whole_secs(*d),
{
    d.as_secs()
}

} // verus!
