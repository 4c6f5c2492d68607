use shift_in::pins::OutputPin;
use shift_in::pins::Phase;
use shift_in::reader::ShiftIn;
use shift_in::sim::FailOutput;
use shift_in::sim::LogOutput;
use shift_in::sim::PatternInput;
use shift_in::sim::RecordingDelay;
use shift_in::sim::SteadyInput;

#[test]
fn on_off() {
    let latch = LogOutput::new();
    let clock = LogOutput::new();
    let input = PatternInput::new(0);
    let mut delay = RecordingDelay::new();

    let mut shift = ShiftIn::new(latch, clock, input, 1);
    let res = shift.read(&mut delay);
    assert_eq!(res[0], 0);

    let latch = LogOutput::new();
    let clock = LogOutput::new();
    let input = PatternInput::new(0xFFFF);

    let mut shift = ShiftIn::new(latch, clock, input, 2);
    let mut res = shift.read(&mut delay);
    assert_eq!(res[0], 0xFF);
    assert_eq!(res[1], 0xFF);
    res = shift.read(&mut delay);
    assert_eq!(res[0], 0);
    assert_eq!(res[1], 0);

    let latch = LogOutput::new();
    let clock = LogOutput::new();
    let input = PatternInput::new(0xc2310);

    let mut shift = ShiftIn::new(latch, clock, input, 2);
    let mut res = shift.read(&mut delay);
    assert_eq!(res[0], 0xc4);
    assert_eq!(res[1], 0x08);
    res = shift.read(&mut delay);
    assert_eq!(res[0], 0);
    assert_eq!(res[1], 0x30);
    res = shift.read(&mut delay);
    assert_eq!(res[0], 0);
    assert_eq!(res[1], 0);
}

#[test]
fn read_returns_width_bytes() {
    for width in 1..6usize {
        let mut shift = ShiftIn::new(
            LogOutput::new(),
            LogOutput::new(),
            SteadyInput::new(Some(true)),
            width,
        );
        let mut delay = RecordingDelay::new();
        let res = shift.read(&mut delay);
        assert_eq!(res.len(), width);
        let res = shift.read(&mut delay);
        assert_eq!(res.len(), width);
    }
}

#[test]
fn low_input_reads_all_zero() {
    for width in 1..6usize {
        let mut shift = ShiftIn::new(
            LogOutput::new(),
            LogOutput::new(),
            SteadyInput::new(Some(false)),
            width,
        );
        let mut delay = RecordingDelay::new();
        let res = shift.read(&mut delay);
        assert_eq!(res, vec![0u8; width]);
    }
}

#[test]
fn high_input_reads_all_ff() {
    for width in 1..6usize {
        let mut shift = ShiftIn::new(
            LogOutput::new(),
            LogOutput::new(),
            SteadyInput::new(Some(true)),
            width,
        );
        let mut delay = RecordingDelay::new();
        let res = shift.read(&mut delay);
        assert_eq!(res, vec![0xFFu8; width]);
    }
}

#[test]
fn construction_drives_lines_low_once() {
    // Lines that start high: construction must still leave exactly one
    // low request on each, after the recorded prior state.
    let mut latch = LogOutput::new();
    let mut clock = LogOutput::new();
    let _ = latch.set_high();
    let _ = clock.set_high();
    let shift = ShiftIn::new(latch, clock, SteadyInput::new(Some(false)), 1);
    assert_eq!(shift.latch.levels, vec![true, false]);
    assert_eq!(shift.clock.levels, vec![true, false]);

    // Lines whose requests all fail: the low request is still made, once.
    let shift = ShiftIn::new(
        FailOutput::new(),
        FailOutput::new(),
        SteadyInput::new(Some(false)),
        1,
    );
    assert_eq!(shift.latch.levels, vec![false]);
    assert_eq!(shift.clock.levels, vec![false]);
}

#[test]
fn delay_phases_come_in_fixed_order() {
    let mut shift = ShiftIn::new(
        LogOutput::new(),
        LogOutput::new(),
        SteadyInput::new(Some(true)),
        2,
    );
    let mut delay = RecordingDelay::new();
    let _ = shift.read(&mut delay);
    let mut expected = vec![Phase::AfterLatch];
    for _ in 0..16 {
        expected.push(Phase::BeforeSample);
        expected.push(Phase::AfterSample);
    }
    assert_eq!(delay.phases, expected);
    // A second read appends the same pattern again.
    let _ = shift.read(&mut delay);
    let mut twice = expected.clone();
    twice.extend_from_slice(&expected);
    assert_eq!(delay.phases, twice);
}

#[test]
fn read_toggles_lines_in_order() {
    let mut shift = ShiftIn::new(
        LogOutput::new(),
        LogOutput::new(),
        SteadyInput::new(Some(false)),
        1,
    );
    let mut delay = RecordingDelay::new();
    let _ = shift.read(&mut delay);
    // Latch: low on construction, then one high/low pulse per read.
    assert_eq!(shift.latch.levels, vec![false, true, false]);
    // Clock: low on construction, low once more at the start of the read,
    // then one low/high toggle per bit.
    let mut expected = vec![false, false];
    for _ in 0..8 {
        expected.push(false);
        expected.push(true);
    }
    assert_eq!(shift.clock.levels, expected);
}

#[test]
fn failed_reads_count_as_low() {
    // Every sample fails: the bytes are all zero, yet the full cycle runs.
    let mut shift = ShiftIn::new(
        LogOutput::new(),
        LogOutput::new(),
        SteadyInput::new(None),
        2,
    );
    let mut delay = RecordingDelay::new();
    let res = shift.read(&mut delay);
    assert_eq!(res, vec![0u8, 0u8]);
    assert_eq!(delay.phases.len(), 1 + 2 * 16);

    // Only the first four samples fail while the line reads high: the
    // failed bits are zero and everything after proceeds normally.
    let mut shift = ShiftIn::new(
        LogOutput::new(),
        LogOutput::new(),
        PatternInput::with_failures(0xFFFF, 0x000F),
        2,
    );
    let res = shift.read(&mut delay);
    assert_eq!(res[1], 0x0F);
    assert_eq!(res[0], 0xFF);
}

#[test]
fn output_failures_are_ignored() {
    let mut shift = ShiftIn::new(
        FailOutput::new(),
        FailOutput::new(),
        SteadyInput::new(Some(true)),
        1,
    );
    let mut delay = RecordingDelay::new();
    let res = shift.read(&mut delay);
    assert_eq!(res, vec![0xFFu8]);
    // The protocol still requested every transition.
    assert_eq!(shift.latch.levels, vec![false, true, false]);
    assert_eq!(shift.clock.levels.len(), 2 + 16);
}
