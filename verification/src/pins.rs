use vstd::prelude::*;

verus! {

/// The three timing windows of a capture cycle. The caller configures how
/// long each one must last; the driver only promises in which order and how
/// often each is requested.
#[derive(Clone, Copy, Debug, PartialEq, Eq, Structural)]
pub enum Phase {
    /// After the latch line was raised: latch-to-shift setup time.
    AfterLatch,
    /// After the clock was dropped, before the data line is sampled.
    BeforeSample,
    /// After the clock was raised, once the sampled bit has been consumed.
    AfterSample,
}

/// A push-pull GPIO output line.
///
/// The model is the sequence of levels that have been *requested* of the
/// line so far, oldest first (`true` = high). A request may fail; failures
/// are the implementation's business and the driver ignores them, so the
/// log records the attempt whether or not it succeeded.
pub trait OutputPin {
    /// Levels requested of this line so far, oldest first.
    spec fn log(&self) -> Seq<bool>;

    /// Request the high electrical level.
    fn set_high(&mut self) -> (r: Result<(), ()>)
        ensures
            final(self).log() == old(self).log().push(true),
    ;

    /// Request the low electrical level.
    fn set_low(&mut self) -> (r: Result<(), ()>)
        ensures
            final(self).log() == old(self).log().push(false),
    ;
}

/// A GPIO input line sampled once per clock pulse.
///
/// The model is an unbounded schedule of future samples: `sample_at(i)` is
/// the outcome of the `i`-th sampling since the line was created (`None`
/// models a failed read), and `pos()` counts how many samples have been
/// taken. Sampling consumes one schedule slot and never changes the
/// schedule itself.
pub trait DataInput {
    /// Internal consistency of the implementation's own state.
    spec fn wf(&self) -> bool;

    /// How many samples have been taken so far.
    spec fn pos(&self) -> nat;

    /// Outcome of the `i`-th sampling: `Some(level)` on success, `None` for
    /// a failed read.
    spec fn sample_at(&self, i: nat) -> Option<bool>;

    /// Sample the line once.
    fn sample(&mut self) -> (r: Result<bool, ()>)
        requires
            old(self).wf(),
        ensures
            final(self).wf(),
            final(self).pos() == old(self).pos() + 1,
            forall|i: nat| #[trigger] final(self).sample_at(i) == old(self).sample_at(i),
            match old(self).sample_at(old(self).pos()) {
                Some(level) => r == Ok::<bool, ()>(level),
                None => r is Err,
            },
    ;
}

/// A blocking timing source.
///
/// The model is the sequence of phases that have been waited for so far.
/// How long each phase blocks is the implementation's business (a no-op
/// delay is a valid choice, e.g. for tests); the driver only promises the
/// order of requests.
pub trait DelayProvider {
    /// Phases waited for so far, oldest first.
    spec fn log(&self) -> Seq<Phase>;

    /// Block for however long `phase` requires.
    fn delay(&mut self, phase: Phase)
        ensures
            final(self).log() == old(self).log().push(phase),
    ;
}

} // verus!
