//! Drives the CCM_OBS peripheral of i.MX RT MCUs, which measures the current,
//! minimum and maximum frequency of an internal root clock.
//!
//! The library resolves root clock names against the table of an MCU,
//! computes the register addresses of the slice that observes a root clock,
//! hands out the register writes, waits and reads of an observation one at a
//! time for the caller to perform on the target's memory, and scales the raw
//! counts into Hertz.

pub mod clock;
pub mod frequencies;
pub mod observe;
pub mod registry;
pub mod slice;
pub mod text;

pub use clock::RootClock;
pub use frequencies::Frequencies;
pub use observe::{ErrorContext, Observation, Operation, Outcome, Step};
pub use registry::{Imxrt, RootClockName};
pub use slice::CcmObsSlice;
