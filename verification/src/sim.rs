use vstd::prelude::*;
use crate::pins::Phase;
use crate::pins::OutputPin;
use crate::pins::DataInput;
use crate::pins::DelayProvider;

verus! {

/// An output line that records every requested level and always succeeds.
pub struct LogOutput {
    pub levels: Vec<bool>,
}

impl LogOutput {
    pub fn new() -> (r: Self)
        ensures
            r.log() == Seq::<bool>::empty(),
    {
        LogOutput { levels: Vec::new() }
    }
}

impl OutputPin for LogOutput {
    open spec fn log(&self) -> Seq<bool> {
        self.levels@
    }

    fn set_high(&mut self) -> (r: Result<(), ()>) {
        self.levels.push(true);
        Ok(())
    }

    fn set_low(&mut self) -> (r: Result<(), ()>) {
        self.levels.push(false);
        Ok(())
    }
}

/// An output line whose every request fails. It still records what was
/// asked of it, so a test can check that a driver ignores the failures yet
/// keeps requesting the right levels.
pub struct FailOutput {
    pub levels: Vec<bool>,
}

impl FailOutput {
    pub fn new() -> (r: Self)
        ensures
            r.log() == Seq::<bool>::empty(),
    {
        FailOutput { levels: Vec::new() }
    }
}

impl OutputPin for FailOutput {
    open spec fn log(&self) -> Seq<bool> {
        self.levels@
    }

    fn set_high(&mut self) -> (r: Result<(), ()>) {
        self.levels.push(true);
        Err(())
    }

    fn set_low(&mut self) -> (r: Result<(), ()>) {
        self.levels.push(false);
        Err(())
    }
}

/// An input line that reports the same outcome forever: a constant level,
/// or — constructed with `None` — a failed read on every sample.
pub struct SteadyInput {
    pub reading: Option<bool>,
    pub taken: Ghost<nat>,
}

impl SteadyInput {
    pub fn new(reading: Option<bool>) -> (r: Self)
        ensures
            r.wf(),
            r.pos() == 0,
            forall|i: nat| #[trigger] r.sample_at(i) == reading,
    {
        SteadyInput { reading, taken: Ghost(0nat) }
    }
}

impl DataInput for SteadyInput {
    open spec fn wf(&self) -> bool {
        true
    }

    open spec fn pos(&self) -> nat {
        self.taken@
    }

    open spec fn sample_at(&self, i: nat) -> Option<bool> {
        self.reading
    }

    fn sample(&mut self) -> (r: Result<bool, ()>) {
        self.taken = Ghost(self.taken@ + 1);
        match self.reading {
            Some(level) => Ok(level),
            None => Err(()),
        }
    }
}

/// Whether bit `i` of `word` is set; positions past the top bit read clear.
pub open spec fn word_bit(word: u64, i: nat) -> bool {
    i < 64 && (word >> (i as u64)) & 1 == 1
}

/// An input line that replays the bits of a word, least significant first:
/// sample `i` reads bit `i`, and positions past the top bit read low. A
/// second word marks the samples that fail instead of reading.
pub struct PatternInput {
    pub word: u64,
    pub failures: u64,
    pub index: u64,
    pub taken: Ghost<nat>,
}

impl PatternInput {
    pub fn new(word: u64) -> (r: Self)
        ensures
            r.wf(),
            r.pos() == 0,
            forall|i: nat| #[trigger] r.sample_at(i) == Some(word_bit(word, i)),
    {
        proof {
            assert(forall|j: u64| (0u64 >> j) & 1 == 0) by (bit_vector);
        }
        PatternInput { word, failures: 0, index: 0, taken: Ghost(0nat) }
    }

    pub fn with_failures(word: u64, failures: u64) -> (r: Self)
        ensures
            r.wf(),
            r.pos() == 0,
            forall|i: nat| #[trigger]
                r.sample_at(i) == if word_bit(failures, i) {
                    None
                } else {
                    Some(word_bit(word, i))
                },
    {
        PatternInput { word, failures, index: 0, taken: Ghost(0nat) }
    }
}

impl DataInput for PatternInput {
    open spec fn wf(&self) -> bool {
        self.index == if self.taken@ >= 64 {
            64u64
        } else {
            self.taken@ as u64
        }
    }

    open spec fn pos(&self) -> nat {
        self.taken@
    }

    open spec fn sample_at(&self, i: nat) -> Option<bool> {
        if word_bit(self.failures, i) {
            None
        } else {
            Some(word_bit(self.word, i))
        }
    }

    fn sample(&mut self) -> (r: Result<bool, ()>) {
        let fail = self.index < 64 && ((self.failures >> self.index) & 1) == 1;
        let level = self.index < 64 && ((self.word >> self.index) & 1) == 1;
        if self.index < 64 {
            self.index = self.index + 1;
        }
        self.taken = Ghost(self.taken@ + 1);
        if fail {
            Err(())
        } else {
            Ok(level)
        }
    }
}

/// A timing source that records each requested phase and returns at once:
/// the zero-duration delay that a test or a forgiving device can use.
pub struct RecordingDelay {
    pub phases: Vec<Phase>,
}

impl RecordingDelay {
    pub fn new() -> (r: Self)
        ensures
            r.log() == Seq::<Phase>::empty(),
    {
        RecordingDelay { phases: Vec::new() }
    }
}

impl DelayProvider for RecordingDelay {
    open spec fn log(&self) -> Seq<Phase> {
        self.phases@
    }

    fn delay(&mut self, phase: Phase) {
        self.phases.push(phase);
    }
}

} // verus!
