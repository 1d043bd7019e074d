//! An exact rational magnitude.
//!
//! Battery telemetry yields quotients of non-negative integer readings
//! (capacity as `energy_now / energy_full`, remaining hours as an energy
//! difference over a rate). Rather than divide and lose exactness, the
//! quotient is carried as a numerator/denominator pair.

use vstd::prelude::*;

verus! {

/// A quotient `num / den`, kept unevaluated.
///
/// When `den > 0` the value is the real number `num / den`. A zero
/// denominator records an out-of-range magnitude, as arises when a capacity
/// is formed from a reading with `energy_full == 0`: the sign of `num`
/// tells on which side of the range the value lies (negative below it,
/// otherwise above), mirroring what dividing would have produced.
#[derive(Clone, Copy, Debug, PartialEq, Eq, Structural)]
pub struct Ratio {
    pub num: i128,
    pub den: u64,
}

impl Ratio {
    /// The quotient `num / den` as an unevaluated pair.
    pub fn new(num: i128, den: u64) -> (r: Ratio)
        ensures
            r == (Ratio { num, den }),
    {
        Ratio { num, den }
    }
}

} // verus!
