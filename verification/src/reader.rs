use vstd::prelude::*;
use vstd::pervasive::VecAdditionalExecFns;
use vstd::arithmetic::power2::pow2;
use vstd::arithmetic::power2::lemma_pow2_unfold;
use vstd::arithmetic::power2::lemma_pow2_strictly_increases;
use vstd::arithmetic::power2::lemma2_to64;
use crate::pins::Phase;
use crate::pins::OutputPin;
use crate::pins::DataInput;
use crate::pins::DelayProvider;

verus! {

/// The level a sample contributes to its byte: only a successful high read
/// sets the bit; a low read and a failed read both leave it clear.
pub open spec fn effective_bit(sample: Option<bool>) -> bool {
    sample == Some(true)
}

/// The `count` bit levels an input line contributes starting with its
/// `start`-th sample, oldest first.
pub open spec fn sampled_bits<I: DataInput>(input: I, start: nat, count: nat) -> Seq<bool> {
    Seq::new(count, |k: int| effective_bit(input.sample_at((start + k) as nat)))
}

/// Value of a byte whose bits are given most-significant first.
pub open spec fn byte_from_bits(bits: Seq<bool>) -> nat
    decreases bits.len(),
{
    if bits.len() == 0 {
        0
    } else {
        2 * byte_from_bits(bits.drop_last()) + if bits.last() {
            1nat
        } else {
            0nat
        }
    }
}

/// The byte a capture of `width` bytes places at array index `j`, when the
/// input line's `start`-th sample is the first one consumed.
///
/// The register shifts serially MSB-first, and the first byte shifted out
/// belongs at the *highest* array index (the chip closest to the controller
/// in a daisy chain shifts out last and lands at index 0), so index `j` is
/// assembled from the eight samples starting at `start + 8 * (width - 1 - j)`.
pub open spec fn captured_byte<I: DataInput>(input: I, start: nat, width: nat, j: nat) -> nat
    recommends
        j < width,
{
    byte_from_bits(sampled_bits(input, (start + 8 * (width - 1 - j)) as nat, 8))
}

/// Levels requested of the clock line by `k` consecutive bit reads: each
/// bit drops the clock, samples, then raises it.
pub open spec fn clock_toggles(k: nat) -> Seq<bool>
    decreases k,
{
    if k == 0 {
        Seq::empty()
    } else {
        clock_toggles((k - 1) as nat) + seq![false, true]
    }
}

/// Delay phases requested by `k` consecutive bit reads: each bit waits once
/// before and once after its sample.
pub open spec fn sample_phases(k: nat) -> Seq<Phase>
    decreases k,
{
    if k == 0 {
        Seq::empty()
    } else {
        sample_phases((k - 1) as nat) + seq![Phase::BeforeSample, Phase::AfterSample]
    }
}

proof fn lemma_clock_toggles_step(k: nat)
    ensures
        clock_toggles(k + 1) == clock_toggles(k).push(false).push(true),
{
    assert(clock_toggles(k + 1) =~= clock_toggles(k).push(false).push(true));
}

proof fn lemma_sample_phases_step(k: nat)
    ensures
        sample_phases(k + 1) == sample_phases(k).push(Phase::BeforeSample).push(Phase::AfterSample),
{
    assert(sample_phases(k + 1) =~= sample_phases(k).push(Phase::BeforeSample).push(
        Phase::AfterSample,
    ));
}

proof fn lemma_byte_from_bits_push(bits: Seq<bool>, b: bool)
    ensures
        byte_from_bits(bits.push(b)) == 2 * byte_from_bits(bits) + if b {
            1nat
        } else {
            0nat
        },
{
    assert(bits.push(b).drop_last() =~= bits);
    assert(bits.push(b).last() == b);
}

proof fn lemma_byte_from_bits_all_low(bits: Seq<bool>)
    requires
        forall|i: int| 0 <= i < bits.len() ==> !bits[i],
    ensures
        byte_from_bits(bits) == 0,
    decreases bits.len(),
{
    if bits.len() > 0 {
        lemma_byte_from_bits_all_low(bits.drop_last());
    }
}

proof fn lemma_byte_from_bits_all_high(bits: Seq<bool>)
    requires
        forall|i: int| 0 <= i < bits.len() ==> bits[i],
    ensures
        byte_from_bits(bits) == pow2(bits.len()) - 1,
    decreases bits.len(),
{
    if bits.len() == 0 {
        lemma2_to64();
    } else {
        lemma_byte_from_bits_all_high(bits.drop_last());
        lemma_pow2_unfold(bits.len());
    }
}

/// Law: a data input that never reports high — whether it reads low or
/// fails — yields only zero bytes, at every index, for every width and
/// wherever in the schedule the capture starts.
pub proof fn lemma_low_input_reads_zero<I: DataInput>(input: I, start: nat, width: nat, j: nat)
    requires
        j < width,
        forall|i: nat| !effective_bit(#[trigger] input.sample_at(i)),
    ensures
        captured_byte(input, start, width, j) == 0,
{
    let bits = sampled_bits(input, (start + 8 * (width - 1 - j)) as nat, 8);
    assert forall|i: int| 0 <= i < bits.len() implies !bits[i] by {
        assert(!effective_bit(input.sample_at(((start + 8 * (width - 1 - j)) + i) as nat)));
    }
    lemma_byte_from_bits_all_low(bits);
}

/// Law: a data input that always reports high yields only `0xFF` bytes, at
/// every index, for every width and wherever in the schedule the capture
/// starts.
pub proof fn lemma_high_input_reads_ff<I: DataInput>(input: I, start: nat, width: nat, j: nat)
    requires
        j < width,
        forall|i: nat| #[trigger] input.sample_at(i) == Some(true),
    ensures
        captured_byte(input, start, width, j) == 0xff,
{
    let bits = sampled_bits(input, (start + 8 * (width - 1 - j)) as nat, 8);
    assert forall|i: int| 0 <= i < bits.len() implies bits[i] by {
        assert(input.sample_at(((start + 8 * (width - 1 - j)) + i) as nat) == Some(true));
    }
    lemma_byte_from_bits_all_high(bits);
    lemma2_to64();
}

/// Driver for a chain of parallel-in/serial-out shift registers on three
/// GPIO lines. `width` is the number of bytes one capture yields, fixed at
/// construction; the delay strategy is supplied per `read` call.
pub struct ShiftIn<L: OutputPin, C: OutputPin, I: DataInput> {
    pub latch: L,
    pub clock: C,
    pub input: I,
    pub width: usize,
}

impl<L: OutputPin, C: OutputPin, I: DataInput> ShiftIn<L, C, I> {
    pub open spec fn wf(&self) -> bool {
        &&& self.input.wf()
        &&& self.width >= 1
    }

    /// Take ownership of the three lines and drive latch and clock low once,
    /// whatever level they were at before. Set failures are ignored: a stuck
    /// line stays wherever the implementation left it, which the forgiving
    /// device timing tolerates.
    pub fn new(latch: L, clock: C, input: I, width: usize) -> (reader: Self)
        requires
            input.wf(),
            width >= 1,
        ensures
            reader.wf(),
            reader.clock.log() == clock.log().push(false),
            reader.latch.log() == latch.log().push(false),
            reader.input == input,
            reader.width == width,
    {
        let mut clock = clock;
        let mut latch = latch;
        let _ = clock.set_low();
        let _ = latch.set_low();
        ShiftIn { latch, clock, input, width }
    }

    /// One full capture: latch the parallel inputs, then shift all
    /// `8 * width` bits out and pack them.
    ///
    /// The contract fixes the whole observable protocol:
    /// - exactly `width` bytes come back, byte `j` assembled MSB-first from
    ///   the eight samples starting at sample `8 * (width - 1 - j)` of this
    ///   call (first byte shifted out lands at the highest index);
    /// - exactly `8 * width` fresh samples are consumed, whatever each one
    ///   returns — a failed read contributes a zero bit and the cycle
    ///   carries on;
    /// - the latch line is raised once and dropped once;
    /// - the clock is dropped once up front, then dropped and raised once
    ///   per bit;
    /// - one `AfterLatch` delay is requested, then a `BeforeSample` /
    ///   `AfterSample` pair per bit.
    pub fn read<D: DelayProvider>(&mut self, delay: &mut D) -> (data: Vec<u8>)
        requires
            old(self).wf(),
        ensures
            final(self).wf(),
            final(self).width == old(self).width,
            data@.len() == old(self).width as nat,
            forall|j: int|
                0 <= j < data@.len() ==> data@[j] as nat == captured_byte(
                    old(self).input,
                    old(self).input.pos(),
                    old(self).width as nat,
                    j as nat,
                ),
            final(self).input.pos() == old(self).input.pos() + 8 * old(self).width as nat,
            forall|i: nat| #[trigger]
                final(self).input.sample_at(i) == old(self).input.sample_at(i),
            final(self).latch.log() == old(self).latch.log() + seq![true, false],
            final(self).clock.log() == old(self).clock.log().push(false) + clock_toggles(
                8 * old(self).width as nat,
            ),
            final(delay).log() == old(delay).log().push(Phase::AfterLatch) + sample_phases(
                8 * old(self).width as nat,
            ),
    {
        let ghost input0 = self.input;
        let ghost pos0 = self.input.pos();
        let ghost latch_log0 = self.latch.log();
        let ghost clock_log0 = self.clock.log();
        let ghost delay_log0 = delay.log();
        let n: usize = self.width;
        let mut data: Vec<u8> = Vec::new();
        let mut fill: usize = 0;
        while fill < n
            invariant
                fill <= n,
                data@.len() == fill as nat,
            decreases n - fill,
        {
            data.push(0);
            fill = fill + 1;
        }
        let _ = self.clock.set_low();
        let _ = self.latch.set_high();
        delay.delay(Phase::AfterLatch);
        let _ = self.latch.set_low();
        proof {
            assert(self.latch.log() =~= latch_log0 + seq![true, false]);
        }
        let mut idx: usize = n;
        while idx > 0
            invariant
                idx <= n,
                n >= 1,
                n == self.width,
                self.input.wf(),
                data@.len() == n as nat,
                self.input.pos() == pos0 + 8 * (n - idx),
                forall|i: nat| #[trigger] self.input.sample_at(i) == input0.sample_at(i),
                self.latch.log() == latch_log0 + seq![true, false],
                self.clock.log() == clock_log0.push(false) + clock_toggles((8 * (n - idx)) as nat),
                delay.log() == delay_log0.push(Phase::AfterLatch) + sample_phases(
                    (8 * (n - idx)) as nat,
                ),
                forall|j: int|
                    idx <= j < n ==> data@[j] as nat == captured_byte(
                        input0,
                        pos0,
                        n as nat,
                        j as nat,
                    ),
            decreases idx,
        {
            idx = idx - 1;
            let ghost start = (pos0 + 8 * (n - 1 - idx)) as nat;
            let mut byte: u8 = 0;
            let mut bit: usize = 0;
            proof {
                lemma2_to64();
            }
            while bit < 8
                invariant
                    bit <= 8,
                    idx < n,
                    n == self.width,
                    self.input.wf(),
                    data@.len() == n as nat,
                    start == pos0 + 8 * (n - 1 - idx),
                    self.input.pos() == start + bit,
                    forall|i: nat| #[trigger] self.input.sample_at(i) == input0.sample_at(i),
                    self.latch.log() == latch_log0 + seq![true, false],
                    self.clock.log() == clock_log0.push(false) + clock_toggles(
                        (8 * (n - 1 - idx) + bit) as nat,
                    ),
                    delay.log() == delay_log0.push(Phase::AfterLatch) + sample_phases(
                        (8 * (n - 1 - idx) + bit) as nat,
                    ),
                    byte as nat == byte_from_bits(sampled_bits(input0, start, bit as nat)),
                    (byte as nat) < pow2(bit as nat),
                    forall|j: int|
                        idx < j < n ==> data@[j] as nat == captured_byte(
                            input0,
                            pos0,
                            n as nat,
                            j as nat,
                        ),
                decreases 8 - bit,
            {
                let _ = self.clock.set_low();
                delay.delay(Phase::BeforeSample);
                let sampled = self.input.sample();
                let high = match sampled {
                    Ok(level) => level,
                    Err(_) => false,
                };
                proof {
                    lemma2_to64();
                    if bit < 7 {
                        lemma_pow2_strictly_increases(bit as nat, 7);
                    }
                    let b = effective_bit(input0.sample_at((start + bit) as nat));
                    assert(high == b);
                    assert(sampled_bits(input0, start, (bit + 1) as nat) =~= sampled_bits(
                        input0,
                        start,
                        bit as nat,
                    ).push(b));
                    lemma_byte_from_bits_push(sampled_bits(input0, start, bit as nat), b);
                    lemma_pow2_unfold((bit + 1) as nat);
                    lemma_clock_toggles_step((8 * (n - 1 - idx) + bit) as nat);
                    lemma_sample_phases_step((8 * (n - 1 - idx) + bit) as nat);
                }
                byte = 2 * byte + if high {
                    1
                } else {
                    0
                };
                let _ = self.clock.set_high();
                delay.delay(Phase::AfterSample);
                bit = bit + 1;
            }
            data.set(idx, byte);
        }
        data
    }
}

} // verus!
