//! Register addresses of a CCM_OBS slice.
use vstd::prelude::*;
use crate::clock::RootClock;

verus! {

/// The distance between the bases of two consecutive slices.
pub const SLICE_STRIDE: u64 = 0x80;

/// Offset of the control-set register: a write ORs its bits into control.
pub const CONTROL_SET_OFFSET: u64 = 0x4;

/// Offset of the control-clear register: a write clears its bits in control.
pub const CONTROL_CLR_OFFSET: u64 = 0x8;

/// Offset of the frequency block: the current, minimum and maximum counts,
/// three consecutive 32-bit words.
pub const FREQUENCY_OFFSET: u64 = 0x40;

/// Offset of the last word of the frequency block.
pub const FREQUENCY_LAST_OFFSET: u64 = 0x48;

/// The base address of slice `slice_number` of the block at `peripheral`.
pub open spec fn slice_base(peripheral: u64, slice_number: u64) -> int {
    peripheral + slice_number * SLICE_STRIDE
}

/// Every register of the slice lies inside the address space.
pub open spec fn slice_fits(peripheral: u64, slice_number: u64) -> bool {
    slice_base(peripheral, slice_number) + FREQUENCY_LAST_OFFSET <= u64::MAX
}

/// One slice of the CCM_OBS peripheral, known by its base address.
#[derive(Debug, Clone, Copy)]
pub struct CcmObsSlice(u64);

impl View for CcmObsSlice {
    type V = u64;

    closed spec fn view(&self) -> u64 {
        self.0
    }
}

impl CcmObsSlice {
    /// The slice that observes `root_clock` in the block at `peripheral_address`.
    pub fn for_root_clock(peripheral_address: u64, root_clock: &RootClock) -> (r: CcmObsSlice)
        requires
            slice_base(peripheral_address, root_clock.slice_number) <= u64::MAX,
        ensures
            r@ == slice_base(peripheral_address, root_clock.slice_number),
    {
        CcmObsSlice(peripheral_address + root_clock.slice_number * SLICE_STRIDE)
    }

    /// The control register.
    pub fn control(self) -> (r: u64)
        ensures
            r == self@,
    {
        self.0
    }

    /// The control-set register.
    pub fn control_set(self) -> (r: u64)
        requires
            self@ + CONTROL_SET_OFFSET <= u64::MAX,
        ensures
            r == self@ + CONTROL_SET_OFFSET,
    {
        self.0 + CONTROL_SET_OFFSET
    }

    /// The control-clear register.
    pub fn control_clr(self) -> (r: u64)
        requires
            self@ + CONTROL_CLR_OFFSET <= u64::MAX,
        ensures
            r == self@ + CONTROL_CLR_OFFSET,
    {
        self.0 + CONTROL_CLR_OFFSET
    }

    /// The first word of the frequency block, the current count.
    pub fn frequency_current(self) -> (r: u64)
        requires
            self@ + FREQUENCY_OFFSET <= u64::MAX,
        ensures
            r == self@ + FREQUENCY_OFFSET,
    {
        self.0 + FREQUENCY_OFFSET
    }
}

/// The registers of slice `n` lie in `[base + n * 0x80, base + n * 0x80 + 0x48]`,
/// a window shorter than the stride, so two different slices of one block
/// never share a register, and a slice's base is linear in its number.
pub proof fn lemma_slices_disjoint(peripheral: u64, n: u64, m: u64)
    requires
        n != m,
    ensures
        slice_base(peripheral, n) + FREQUENCY_LAST_OFFSET < slice_base(peripheral, m)
            || slice_base(peripheral, m) + FREQUENCY_LAST_OFFSET < slice_base(peripheral, n),
        slice_base(peripheral, n) - slice_base(peripheral, m) == (n - m) * SLICE_STRIDE,
        n < m ==> slice_base(peripheral, n) + SLICE_STRIDE <= slice_base(peripheral, m),
        CONTROL_SET_OFFSET < FREQUENCY_LAST_OFFSET,
        CONTROL_CLR_OFFSET < FREQUENCY_LAST_OFFSET,
        FREQUENCY_OFFSET + 8 == FREQUENCY_LAST_OFFSET,
        FREQUENCY_LAST_OFFSET < SLICE_STRIDE,
{
    assert(slice_base(peripheral, n) - slice_base(peripheral, m) == (n - m) * 0x80)
        by (nonlinear_arith);
    if n < m {
        assert((m - n) * 0x80 >= 0x80) by (nonlinear_arith)
            requires
                n < m,
        ;
    } else {
        assert((n - m) * 0x80 >= 0x80) by (nonlinear_arith)
            requires
                m < n,
        ;
    }
}

} // verus!
