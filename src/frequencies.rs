//! Scaling of raw counter readings into Hertz.
use vstd::prelude::*;

verus! {

/// The divider that a slice applies before it counts.
///
/// Clocks below 400 MHz need some division, and a divider of eight still
/// works for a 3.2 GHz clock, which no supported root clock reaches.
pub const DIVIDER: u32 = 8;

/// `raw * divider` in Hertz, or `None` where the product does not fit in a `u32`.
pub open spec fn scaled(raw: u32, divider: u32) -> Option<u32> {
    if raw * divider > u32::MAX {
        None
    } else {
        Some((raw * divider) as u32)
    }
}

/// `max - min`, clamped at zero, where both are present.
pub open spec fn spread(min: Option<u32>, max: Option<u32>) -> Option<u32> {
    match (min, max) {
        (Some(lo), Some(hi)) => Some(if hi >= lo { (hi - lo) as u32 } else { 0u32 }),
        _ => None,
    }
}

/// Frequency measurements of one root clock: the raw current, minimum and
/// maximum counts, and the divider that they are to be scaled by.
#[derive(Debug, Clone, Copy, PartialEq, Eq, Structural)]
pub struct Frequencies {
    raw_current: u32,
    raw_min: u32,
    raw_max: u32,
    divider: u32,
}

impl Frequencies {
    pub closed spec fn spec_raw_current(&self) -> u32 {
        self.raw_current
    }

    pub closed spec fn spec_raw_min(&self) -> u32 {
        self.raw_min
    }

    pub closed spec fn spec_raw_max(&self) -> u32 {
        self.raw_max
    }

    pub closed spec fn spec_divider(&self) -> u32 {
        self.divider
    }

    /// The measurements that [`Frequencies::from_readings`] gives.
    pub closed spec fn spec_from_readings(raw_current: u32, raw_min: u32, raw_max: u32) -> Frequencies {
        Frequencies { raw_current, raw_min, raw_max, divider: DIVIDER }
    }

    pub open spec fn spec_current(&self) -> Option<u32> {
        scaled(self.spec_raw_current(), self.spec_divider())
    }

    pub open spec fn spec_min(&self) -> Option<u32> {
        scaled(self.spec_raw_min(), self.spec_divider())
    }

    pub open spec fn spec_max(&self) -> Option<u32> {
        scaled(self.spec_raw_max(), self.spec_divider())
    }

    /// The measurements of a slice that counted with [`DIVIDER`]: the three
    /// words of its frequency block, in order.
    pub fn from_readings(raw_current: u32, raw_min: u32, raw_max: u32) -> (r: Frequencies)
        ensures
            r == Frequencies::spec_from_readings(raw_current, raw_min, raw_max),
            r.spec_raw_current() == raw_current,
            r.spec_raw_min() == raw_min,
            r.spec_raw_max() == raw_max,
            r.spec_divider() == DIVIDER,
    {
        Frequencies { raw_current, raw_min, raw_max, divider: DIVIDER }
    }

    /// The current frequency in Hz, or `None` where scaling overflows.
    pub fn current(&self) -> (r: Option<u32>)
        ensures
            r == self.spec_current(),
    {
        self.raw_current.checked_mul(self.divider)
    }

    /// The minimum frequency observed in Hz, or `None` where scaling overflows.
    pub fn min(&self) -> (r: Option<u32>)
        ensures
            r == self.spec_min(),
    {
        self.raw_min.checked_mul(self.divider)
    }

    /// The maximum frequency observed in Hz, or `None` where scaling overflows.
    pub fn max(&self) -> (r: Option<u32>)
        ensures
            r == self.spec_max(),
    {
        self.raw_max.checked_mul(self.divider)
    }

    /// The difference of maximum and minimum, floored at zero; `None` where
    /// either of them overflows.
    pub fn diff(&self) -> (r: Option<u32>)
        ensures
            r == spread(self.spec_min(), self.spec_max()),
    {
        let max = match self.max() {
            Some(m) => m,
            None => return None,
        };
        let min = match self.min() {
            Some(m) => m,
            None => return None,
        };
        Some(max.saturating_sub(min))
    }

    /// The raw current count of the peripheral.
    pub fn raw_current(&self) -> (r: u32)
        ensures
            r == self.spec_raw_current(),
    {
        self.raw_current
    }

    /// The raw minimum count of the peripheral.
    pub fn raw_min(&self) -> (r: u32)
        ensures
            r == self.spec_raw_min(),
    {
        self.raw_min
    }

    /// The raw maximum count of the peripheral.
    pub fn raw_max(&self) -> (r: u32)
        ensures
            r == self.spec_raw_max(),
    {
        self.raw_max
    }

    /// The divider that the raw counts are scaled by.
    pub fn divider(&self) -> (r: u32)
        ensures
            r == self.spec_divider(),
    {
        self.divider
    }
}

/// The difference is the maximum less the minimum where the minimum does not
/// exceed the maximum, and zero, never a wrapped value, where it does.
pub proof fn lemma_diff_is_max_minus_min(f: Frequencies)
    requires
        f.spec_min() is Some,
        f.spec_max() is Some,
    ensures
        spread(f.spec_min(), f.spec_max()) is Some,
        f.spec_min()->0 <= f.spec_max()->0 ==> spread(f.spec_min(), f.spec_max())->0
            == f.spec_max()->0 - f.spec_min()->0,
        f.spec_raw_max() < f.spec_raw_min() ==> spread(f.spec_min(), f.spec_max())->0 == 0,
{
    if f.spec_raw_max() < f.spec_raw_min() {
        let d = f.spec_divider() as int;
        assert(f.spec_raw_max() as int * d <= f.spec_raw_min() as int * d) by (nonlinear_arith)
            requires
                f.spec_raw_max() < f.spec_raw_min(),
                d >= 0,
        ;
    }
}

/// Scaling is exact where it fits and absent where it does not: a raw count
/// is never reported as a wrapped or saturated frequency.
pub proof fn lemma_scaling_exact_or_absent(raw: u32, divider: u32)
    ensures
        scaled(raw, divider) is Some <==> raw as int * divider as int <= u32::MAX,
        scaled(raw, divider) is Some ==> scaled(raw, divider)->0 as int == raw as int
            * divider as int,
{
}

} // verus!
