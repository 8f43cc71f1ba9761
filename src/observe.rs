//! The observation protocol: the register writes, waits and reads that
//! program a slice to sample one root clock, as a state machine whose
//! operations a caller performs on the target's memory.
use vstd::prelude::*;
use crate::clock::RootClock;
use crate::frequencies::{DIVIDER, Frequencies};
use crate::registry::{Imxrt, RootClockName};
use crate::slice::{
    CcmObsSlice, CONTROL_CLR_OFFSET, CONTROL_SET_OFFSET, FREQUENCY_OFFSET, slice_base, slice_fits,
};

verus! {

/// Control bit that powers the slice off.
pub const OFF: u32 = 1 << 24;

/// Control bit that holds the slice in reset.
pub const RESET: u32 = 1 << 15;

/// The divider field of the control register, for a divider of [`DIVIDER`].
pub const DIVIDER_FIELD: u32 = (DIVIDER - 1) << 16;

/// The settling delay where the caller names none.
pub const DEFAULT_DELAY_MS: u64 = 100;

/// The shortest settling delay that an observation waits.
pub const MIN_DELAY_MS: u64 = 20;

/// The settling delay that a request of `requested_ms` yields.
pub open spec fn spec_effective_delay(requested_ms: u64) -> u64 {
    if requested_ms < MIN_DELAY_MS {
        MIN_DELAY_MS
    } else {
        requested_ms
    }
}

/// The settling delay for a request of `requested_ms`: never less than
/// [`MIN_DELAY_MS`].
pub fn effective_delay_ms(requested_ms: u64) -> (r: u64)
    ensures
        r == spec_effective_delay(requested_ms),
        r >= MIN_DELAY_MS,
        requested_ms >= MIN_DELAY_MS ==> r == requested_ms,
{
    if requested_ms < MIN_DELAY_MS {
        MIN_DELAY_MS
    } else {
        requested_ms
    }
}

/// The steps of one observation of one root clock, in order.
#[derive(Debug, Clone, Copy, PartialEq, Eq, Structural)]
pub enum Step {
    /// Write OFF alone to control, clearing every other bit.
    TurnOff,
    /// Set RESET (with OFF) through control-set.
    Reset,
    /// Write OFF, RESET, the divider and the root select to control.
    Program,
    /// Clear OFF and RESET through control-clear: sampling starts.
    StartSampling,
    /// Push the writes to the MCU.
    FlushCommands,
    /// Wait for the counters to settle.
    Settle,
    /// Read the current, minimum and maximum counts.
    Sample,
    /// Write OFF alone to control again.
    Shutdown,
    /// Push the last write to the MCU.
    FlushCleanup,
}

/// The step after `s`; the last step of one root clock is followed by the
/// first step of the next.
pub open spec fn next_step(s: Step) -> Step {
    match s {
        Step::TurnOff => Step::Reset,
        Step::Reset => Step::Program,
        Step::Program => Step::StartSampling,
        Step::StartSampling => Step::FlushCommands,
        Step::FlushCommands => Step::Settle,
        Step::Settle => Step::Sample,
        Step::Sample => Step::Shutdown,
        Step::Shutdown => Step::FlushCleanup,
        Step::FlushCleanup => Step::TurnOff,
    }
}

/// The steps of the observation of one root clock, in the order performed.
pub open spec fn protocol_steps() -> Seq<Step> {
    seq![
        Step::TurnOff,
        Step::Reset,
        Step::Program,
        Step::StartSampling,
        Step::FlushCommands,
        Step::Settle,
        Step::Sample,
        Step::Shutdown,
        Step::FlushCleanup,
    ]
}

/// Each root clock goes through the nine steps of [`protocol_steps`] in
/// order, and the cycle ends where it began: the slice's last write is the
/// same lone OFF bit as its first. The one wait of the cycle is the settling
/// step, and it lasts the observation's delay.
pub proof fn lemma_protocol_cycle(base: u64, clock: RootClock, delay_ms: u64)
    ensures
        protocol_steps().len() == 9,
        forall|k: int| 0 <= k < 8 ==> next_step(#[trigger] protocol_steps()[k]) == protocol_steps()[k + 1],
        next_step(protocol_steps()[8]) == protocol_steps()[0],
        forall|step: Step|
            (#[trigger] operation(base, clock, delay_ms, step) is Sleep) <==> step == Step::Settle,
        operation(base, clock, delay_ms, Step::Settle) == (Operation::Sleep { millis: delay_ms }),
        operation(base, clock, delay_ms, Step::TurnOff) == operation(
            base,
            clock,
            delay_ms,
            Step::Shutdown,
        ),
{
    let s = protocol_steps();
    assert(s[0] == Step::TurnOff && s[1] == Step::Reset && s[2] == Step::Program);
    assert(s[3] == Step::StartSampling && s[4] == Step::FlushCommands && s[5] == Step::Settle);
    assert(s[6] == Step::Sample && s[7] == Step::Shutdown && s[8] == Step::FlushCleanup);
}

/// The description of each step that an error carries.
pub open spec fn step_description(s: Step) -> Seq<char> {
    match s {
        Step::TurnOff => "turning off the slice"@,
        Step::Reset => "resetting the slice"@,
        Step::Program => "setting the divider and root select"@,
        Step::StartSampling => "starting to sample"@,
        Step::FlushCommands => "flushing commands to the MCU"@,
        Step::Settle => "waiting for the slice to settle"@,
        Step::Sample => "sampling frequencies"@,
        Step::Shutdown => "turning off the slice"@,
        Step::FlushCleanup => "flushing cleanup to the MCU"@,
    }
}

impl Step {
    /// What the step does, as an error reports it.
    pub fn describe(&self) -> (r: &'static str)
        ensures
            r@ == step_description(*self),
    {
        match self {
            Step::TurnOff => "turning off the slice",
            Step::Reset => "resetting the slice",
            Step::Program => "setting the divider and root select",
            Step::StartSampling => "starting to sample",
            Step::FlushCommands => "flushing commands to the MCU",
            Step::Settle => "waiting for the slice to settle",
            Step::Sample => "sampling frequencies",
            Step::Shutdown => "turning off the slice",
            Step::FlushCleanup => "flushing cleanup to the MCU",
        }
    }
}

/// One operation on the target's memory, or a wait.
#[derive(Debug, Clone, Copy, PartialEq, Eq, Structural)]
pub enum Operation {
    /// Write one 32-bit word.
    Write { address: u64, value: u32 },
    /// Force the queued writes into effect.
    Flush,
    /// Wait this many milliseconds.
    Sleep { millis: u64 },
    /// Read three consecutive 32-bit words.
    ReadThree { address: u64 },
}

/// The operation of `step` for a root clock `clock` of the block at `base`.
pub open spec fn operation(base: u64, clock: RootClock, delay_ms: u64, step: Step) -> Operation {
    let b = slice_base(base, clock.slice_number);
    match step {
        Step::TurnOff => Operation::Write { address: b as u64, value: OFF },
        Step::Reset => Operation::Write {
            address: (b + CONTROL_SET_OFFSET) as u64,
            value: OFF | RESET,
        },
        Step::Program => Operation::Write {
            address: b as u64,
            value: OFF | RESET | DIVIDER_FIELD | clock.select_index,
        },
        Step::StartSampling => Operation::Write {
            address: (b + CONTROL_CLR_OFFSET) as u64,
            value: OFF | RESET,
        },
        Step::FlushCommands => Operation::Flush,
        Step::Settle => Operation::Sleep { millis: delay_ms },
        Step::Sample => Operation::ReadThree { address: (b + FREQUENCY_OFFSET) as u64 },
        Step::Shutdown => Operation::Write { address: b as u64, value: OFF },
        Step::FlushCleanup => Operation::Flush,
    }
}

/// What the caller reports back once it has performed an operation.
#[derive(Debug, Clone, Copy, PartialEq, Eq, Structural)]
pub enum Outcome {
    /// A write, flush or wait took effect.
    Done,
    /// The three words that a read returned.
    Read { current: u32, min: u32, max: u32 },
}

/// A failed operation, with the step that it belonged to.
#[derive(Debug)]
pub struct ErrorContext<E> {
    what: &'static str,
    source: E,
}

/// Wraps the failure `source` of a step described by `what`.
pub fn context<E>(what: &'static str, source: E) -> (r: ErrorContext<E>)
    ensures
        r.spec_what() == what@,
        r.spec_source() == source,
{
    ErrorContext { what, source }
}

impl<E> ErrorContext<E> {
    pub closed spec fn spec_what(&self) -> Seq<char> {
        self.what@
    }

    pub closed spec fn spec_source(&self) -> E {
        self.source
    }

    /// The step that failed.
    pub fn what(&self) -> (r: &'static str)
        ensures
            r@ == self.spec_what(),
    {
        self.what
    }

    /// The failure that the step met.
    pub fn source(&self) -> (r: &E)
        ensures
            *r == self.spec_source(),
    {
        &self.source
    }

    /// The failure that the step met, taken out.
    pub fn into_source(self) -> (r: E)
        ensures
            r == self.spec_source(),
    {
        self.source
    }
}

/// An observation of a list of root clocks, one after another.
pub struct Observation {
    base: u64,
    clocks: Vec<RootClock>,
    delay_ms: u64,
    index: usize,
    step: Step,
    results: Vec<Frequencies>,
}

impl Observation {
    pub closed spec fn spec_base(&self) -> u64 {
        self.base
    }

    pub closed spec fn spec_clocks(&self) -> Seq<RootClock> {
        self.clocks@
    }

    pub closed spec fn spec_delay(&self) -> u64 {
        self.delay_ms
    }

    /// The position of the root clock under observation.
    pub closed spec fn spec_index(&self) -> int {
        self.index as int
    }

    pub closed spec fn spec_step(&self) -> Step {
        self.step
    }

    /// The measurements of the root clocks sampled so far, in order.
    pub closed spec fn spec_results(&self) -> Seq<Frequencies> {
        self.results@
    }

    pub closed spec fn wf(&self) -> bool {
        &&& self.index <= self.clocks@.len()
        &&& self.index == self.clocks@.len() ==> self.step == Step::TurnOff
        &&& self.results@.len() == if self.step == Step::Shutdown || self.step
            == Step::FlushCleanup {
            self.index + 1
        } else {
            self.index as int
        }
        &&& forall|i: int|
            0 <= i < self.clocks@.len() ==> slice_fits(
                self.base,
                #[trigger] self.clocks@[i].slice_number,
            )
    }

    /// All root clocks have been observed.
    pub open spec fn spec_done(&self) -> bool {
        self.spec_index() == self.spec_clocks().len()
    }

    /// A new observation of `clocks` in the block at `base`, which waits
    /// `delay_ms` before it samples each.
    pub fn new(base: u64, clocks: Vec<RootClock>, delay_ms: u64) -> (r: Observation)
        requires
            forall|i: int|
                0 <= i < clocks@.len() ==> slice_fits(base, #[trigger] clocks@[i].slice_number),
        ensures
            r.wf(),
            r.spec_base() == base,
            r.spec_clocks() == clocks@,
            r.spec_delay() == delay_ms,
            r.spec_index() == 0,
            r.spec_step() == Step::TurnOff,
            r.spec_results() == Seq::<Frequencies>::empty(),
    {
        Observation { base, clocks, delay_ms, index: 0, step: Step::TurnOff, results: Vec::new() }
    }

    /// Whether all root clocks have been observed.
    pub fn is_done(&self) -> (r: bool)
        requires
            self.wf(),
        ensures
            r == self.spec_done(),
    {
        self.index == self.clocks.len()
    }

    /// The step to perform next and its operation, or `None` once all root
    /// clocks have been observed.
    pub fn next_operation(&self) -> (r: Option<(Step, Operation)>)
        requires
            self.wf(),
        ensures
            self.spec_done() ==> r is None,
            !self.spec_done() ==> r == Some(
                (
                    self.spec_step(),
                    operation(
                        self.spec_base(),
                        self.spec_clocks()[self.spec_index()],
                        self.spec_delay(),
                        self.spec_step(),
                    ),
                ),
            ),
    {
        if self.index == self.clocks.len() {
            return None;
        }
        let clock = &self.clocks[self.index];
        let slice = CcmObsSlice::for_root_clock(self.base, clock);
        let op = match self.step {
            Step::TurnOff => Operation::Write { address: slice.control(), value: OFF },
            Step::Reset => Operation::Write { address: slice.control_set(), value: OFF | RESET },
            Step::Program => Operation::Write {
                address: slice.control(),
                value: OFF | RESET | DIVIDER_FIELD | clock.select_index,
            },
            Step::StartSampling => Operation::Write {
                address: slice.control_clr(),
                value: OFF | RESET,
            },
            Step::FlushCommands => Operation::Flush,
            Step::Settle => Operation::Sleep { millis: self.delay_ms },
            Step::Sample => Operation::ReadThree { address: slice.frequency_current() },
            Step::Shutdown => Operation::Write { address: slice.control(), value: OFF },
            Step::FlushCleanup => Operation::Flush,
        };
        Some((self.step, op))
    }

    /// Records that the current operation took effect, with what it read,
    /// and moves on to the next step.
    pub fn advance(&mut self, outcome: Outcome)
        requires
            old(self).wf(),
            !old(self).spec_done(),
            (old(self).spec_step() == Step::Sample) == (outcome is Read),
        ensures
            final(self).wf(),
            final(self).spec_base() == old(self).spec_base(),
            final(self).spec_clocks() == old(self).spec_clocks(),
            final(self).spec_delay() == old(self).spec_delay(),
            final(self).spec_step() == next_step(old(self).spec_step()),
            final(self).spec_index() == if old(self).spec_step() == Step::FlushCleanup {
                old(self).spec_index() + 1
            } else {
                old(self).spec_index()
            },
            final(self).spec_results() == match outcome {
                Outcome::Read { current, min, max } => old(self).spec_results().push(
                    Frequencies::spec_from_readings(current, min, max),
                ),
                Outcome::Done => old(self).spec_results(),
            },
    {
        let n = self.clocks.len();
        assert(self.index < n);
        if let Outcome::Read { current, min, max } = outcome {
            self.results.push(Frequencies::from_readings(current, min, max));
        }
        self.step = match self.step {
            Step::TurnOff => Step::Reset,
            Step::Reset => Step::Program,
            Step::Program => Step::StartSampling,
            Step::StartSampling => Step::FlushCommands,
            Step::FlushCommands => Step::Settle,
            Step::Settle => Step::Sample,
            Step::Sample => Step::Shutdown,
            Step::Shutdown => Step::FlushCleanup,
            Step::FlushCleanup => {
                self.index = self.index + 1;
                Step::TurnOff
            },
        };
    }

    /// The measurements of all root clocks, in the order requested.
    pub fn into_frequencies(self) -> (r: Vec<Frequencies>)
        requires
            self.wf(),
            self.spec_done(),
        ensures
            r@ == self.spec_results(),
            r@.len() == self.spec_clocks().len(),
    {
        self.results
    }
}

impl Imxrt {
    /// An observation of the root clocks `names`, in order, which waits
    /// `delay_ms`, but no less than [`MIN_DELAY_MS`], before each sample.
    pub fn start_observation(&self, names: &[RootClockName], delay_ms: u64) -> (r: Observation)
        requires
            self.wf(),
            forall|i: int| 0 <= i < names@.len() ==> self.clocks().contains_key(#[trigger] names@[i]@),
        ensures
            r.wf(),
            r.spec_base() == self.base(),
            r.spec_clocks().len() == names@.len(),
            forall|i: int|
                0 <= i < names@.len() ==> #[trigger] r.spec_clocks()[i] == self.clocks()[names@[i]@],
            r.spec_delay() == spec_effective_delay(delay_ms),
            r.spec_index() == 0,
            r.spec_step() == Step::TurnOff,
            r.spec_results() == Seq::<Frequencies>::empty(),
    {
        proof {
            self.lemma_wf();
        }
        let mut clocks: Vec<RootClock> = Vec::new();
        let mut i: usize = 0;
        while i < names.len()
            invariant
                self.wf(),
                i <= names@.len(),
                clocks@.len() == i,
                forall|j: int| 0 <= j < names@.len() ==> self.clocks().contains_key(#[trigger] names@[j]@),
                forall|j: int| 0 <= j < i ==> #[trigger] clocks@[j] == self.clocks()[names@[j]@],
                forall|k: Seq<char>|
                    self.clocks().contains_key(k) ==> slice_fits(
                        self.base(),
                        #[trigger] self.clocks()[k].slice_number,
                    ),
            decreases names@.len() - i,
        {
            let clock = *self.get(names[i]);
            clocks.push(clock);
            i = i + 1;
        }
        assert forall|j: int| 0 <= j < clocks@.len() implies slice_fits(
            self.base(),
            #[trigger] clocks@[j].slice_number,
        ) by {
            assert(self.clocks().contains_key(names@[j]@));
        }
        Observation::new(self.ccm_obs(), clocks, effective_delay_ms(delay_ms))
    }
}

} // verus!
