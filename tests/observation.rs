use ccm_obs::observe::{
    context, effective_delay_ms, Operation, Outcome, Step, DEFAULT_DELAY_MS, DIVIDER_FIELD,
    MIN_DELAY_MS, OFF, RESET,
};
use ccm_obs::registry::{imxrt1170, Imxrt, IMXRT1170_CCM_OBS};
use ccm_obs::{CcmObsSlice, Frequencies, RootClock};

/// Runs an observation against a simulated memory that returns `words` on
/// each read, and records every operation.
fn run(mcu: &Imxrt, names: &[&str], delay_ms: u64, words: [u32; 3]) -> (Vec<Operation>, Vec<Frequencies>) {
    let resolved: Vec<_> = names.iter().map(|n| mcu.lookup_root_clock(n).unwrap()).collect();
    let mut obs = mcu.start_observation(&resolved, delay_ms);
    let mut log = Vec::new();
    while let Some((step, op)) = obs.next_operation() {
        log.push(op);
        let outcome = match op {
            Operation::ReadThree { .. } => {
                assert_eq!(step, Step::Sample);
                Outcome::Read { current: words[0], min: words[1], max: words[2] }
            }
            _ => Outcome::Done,
        };
        obs.advance(outcome);
    }
    assert!(obs.is_done());
    (log, obs.into_frequencies())
}

#[test]
fn end_to_end_enet1() {
    let mcu = imxrt1170();
    let (log, freqs) = run(&mcu, &["ENET1_CLK_ROOT"], DEFAULT_DELAY_MS, [125_000_000, 124_000_000, 126_000_000]);
    let base = 0x4015_0000 + 2 * 0x80;
    assert_eq!(
        log,
        vec![
            Operation::Write { address: base, value: OFF },
            Operation::Write { address: base + 0x4, value: OFF | RESET },
            Operation::Write { address: base, value: OFF | RESET | DIVIDER_FIELD | 179 },
            Operation::Write { address: base + 0x8, value: OFF | RESET },
            Operation::Flush,
            Operation::Sleep { millis: 100 },
            Operation::ReadThree { address: base + 0x40 },
            Operation::Write { address: base, value: OFF },
            Operation::Flush,
        ]
    );
    assert_eq!(freqs.len(), 1);
    assert_eq!(freqs[0].current(), Some(125_000_000 * 8));
    assert_eq!(freqs[0].min(), Some(124_000_000 * 8));
    assert_eq!(freqs[0].max(), Some(126_000_000 * 8));
    assert_eq!(freqs[0].diff(), Some(16_000_000));
}

#[test]
fn control_bits() {
    assert_eq!(OFF, 1 << 24);
    assert_eq!(RESET, 1 << 15);
    assert_eq!(DIVIDER_FIELD, (8 - 1) << 16);
}

#[test]
fn results_in_request_order() {
    let mcu = imxrt1170();
    let (log, freqs) = run(&mcu, &["m7", "osc_24m", "bus"], 50, [1, 2, 3]);
    assert_eq!(log.len(), 27);
    assert_eq!(freqs.len(), 3);
    assert_eq!(log[0], Operation::Write { address: IMXRT1170_CCM_OBS + 4 * 0x80, value: OFF });
    assert_eq!(log[9], Operation::Write { address: IMXRT1170_CCM_OBS, value: OFF });
    assert_eq!(log[20], Operation::Write { address: IMXRT1170_CCM_OBS + 2 * 0x80, value: OFF | RESET | DIVIDER_FIELD | 130 });
    assert_eq!(log[5], Operation::Sleep { millis: 50 });
}

#[test]
fn empty_request_does_nothing() {
    let mcu = imxrt1170();
    let (log, freqs) = run(&mcu, &[], 100, [0, 0, 0]);
    assert!(log.is_empty());
    assert!(freqs.is_empty());
}

#[test]
fn minimum_delay_enforced() {
    assert_eq!(effective_delay_ms(5), 20);
    assert_eq!(effective_delay_ms(0), MIN_DELAY_MS);
    assert_eq!(effective_delay_ms(20), 20);
    assert_eq!(effective_delay_ms(100), 100);
    let mcu = imxrt1170();
    let (log, _) = run(&mcu, &["m7"], 5, [0, 0, 0]);
    assert_eq!(log[5], Operation::Sleep { millis: 20 });
}

#[test]
fn step_descriptions() {
    assert_eq!(Step::TurnOff.describe(), "turning off the slice");
    assert_eq!(Step::Reset.describe(), "resetting the slice");
    assert_eq!(Step::Program.describe(), "setting the divider and root select");
    assert_eq!(Step::StartSampling.describe(), "starting to sample");
    assert_eq!(Step::FlushCommands.describe(), "flushing commands to the MCU");
    assert_eq!(Step::Sample.describe(), "sampling frequencies");
    assert_eq!(Step::Shutdown.describe(), "turning off the slice");
    assert_eq!(Step::FlushCleanup.describe(), "flushing cleanup to the MCU");
}

#[test]
fn error_context_keeps_cause() {
    let e = context(Step::Sample.describe(), String::from("probe gone"));
    assert_eq!(e.what(), "sampling frequencies");
    assert_eq!(e.source(), "probe gone");
    assert_eq!(e.into_source(), String::from("probe gone"));
}

#[test]
fn slice_addresses() {
    let clock = RootClock::new(0, 3);
    let s = CcmObsSlice::for_root_clock(0x1000, &clock);
    assert_eq!(s.control(), 0x1000 + 3 * 0x80);
    assert_eq!(s.control_set(), 0x1184);
    assert_eq!(s.control_clr(), 0x1188);
    assert_eq!(s.frequency_current(), 0x11C0);
    let s0 = CcmObsSlice::for_root_clock(0x1000, &RootClock::new(0, 0));
    let s1 = CcmObsSlice::for_root_clock(0x1000, &RootClock::new(0, 1));
    assert!(s0.frequency_current() + 0x8 < s1.control());
}
