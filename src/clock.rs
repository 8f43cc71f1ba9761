//! Root clock identities.
use vstd::prelude::*;

verus! {

/// A CCM_OBS root clock identifier: the value that selects it as a slice
/// input, and the slice that is wired to it.
///
/// Nothing checks these numbers against the silicon: a table that names a
/// root clock is trusted to match the reference manual.
#[derive(Debug, Clone, Copy, PartialEq, Eq, Structural)]
pub struct RootClock {
    pub select_index: u32,
    pub slice_number: u64,
}

impl RootClock {
    /// Defines a new root clock.
    pub fn new(select_index: u32, slice_number: u64) -> (r: RootClock)
        ensures
            r.select_index == select_index,
            r.slice_number == slice_number,
    {
        RootClock { select_index, slice_number }
    }

    /// Returns the select index for this root clock.
    pub fn select_index(&self) -> (r: u32)
        ensures
            r == self.select_index,
    {
        self.select_index
    }

    /// Returns the slice number for this root clock.
    pub fn slice_number(&self) -> (r: u64)
        ensures
            r == self.slice_number,
    {
        self.slice_number
    }
}

} // verus!
