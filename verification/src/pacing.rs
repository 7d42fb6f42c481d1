//! Pacing: the rate limiting modes of the pacer and the spacing of the
//! packets of a batch. (The pacing interval itself is computed from a
//! floating-point rate outside this library.)

use vstd::prelude::*;

verus! {

/// Rate limiting type of a pacer.
#[derive(Debug, Clone, Copy, PartialEq, Eq)]
pub enum RateType {
    /// Constant Bit Rate
    Cbr,
    /// Send at line rate with invalid packets
    Poison,
    /// Hardware-assisted rate limiting
    Hw,
}

/// The name of a pacer's rate type.
pub open spec fn pacing_rate_name(r: RateType) -> Seq<char> {
    match r {
        RateType::Cbr => "cbr"@,
        RateType::Poison => "poison"@,
        RateType::Hw => "hw"@,
    }
}

impl RateType {
    /// The rate type's name, as printed in reports.
    pub fn to_string(&self) -> (r: String)
        ensures
            r@ == pacing_rate_name(*self),
    {
        let s = match self {
            RateType::Cbr => "cbr",
            RateType::Poison => "poison",
            RateType::Hw => "hw",
        };
        s.to_owned()
    }
}

/// The gap between consecutive packets of a batch, in nanoseconds: the
/// pacing interval shared evenly by the `batch_size` packets of the batch,
/// rounded down. A batch holds at least one packet.
pub fn batch_interval_ns(interval_ns: u64, batch_size: u32) -> (r: u64)
    requires
        batch_size > 0,
    ensures
        r == interval_ns / (batch_size as u64),
{
    interval_ns / (batch_size as u64)
}

} // verus!
