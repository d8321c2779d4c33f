use vstd::prelude::*;
use vstd::arithmetic::mul::lemma_mul_is_distributive_add_other_way;

verus! {

/// Sample rate of the I2S output, in Hz.
pub const SAMPLE_RATE: u32 = 48_000;

/// Phase accumulator increment for a tone of `freq_hz`: the frequency in
/// units of 1/65536 of a period per sample. The shift by 16 is done in 32-bit
/// arithmetic, so it wraps for frequencies of 65536 Hz and above.
pub open spec fn spec_phase_step(freq_hz: u32) -> int {
    ((freq_hz as int * 0x1_0000) % 0x1_0000_0000) / (SAMPLE_RATE as int)
}

pub fn phase_step(freq_hz: u32) -> (step: i32)
    ensures
        step == spec_phase_step(freq_hz),
{
    let shifted: u32 = freq_hz << 16u32;
    assert(shifted as int == (freq_hz as int * 0x1_0000) % 0x1_0000_0000) by (bit_vector)
        requires shifted == freq_hz << 16u32;
    (shifted / SAMPLE_RATE) as i32
}

/// The signed 16-bit value that the low 16 bits of `x` encode in two's
/// complement.
pub open spec fn low16_signed(x: int) -> int {
    let m = x % 0x1_0000;
    if m >= 0x8000 { m - 0x1_0000 } else { m }
}

/// Triangle wave sample for a phase: the low 16 bits of the phase read as a
/// signed value, folded by its absolute value and centred on zero.
pub open spec fn spec_triangle_sample(phase: int) -> int {
    let v = low16_signed(phase);
    (if v < 0 { -v } else { v }) - 0x4000
}

pub fn triangle_sample(phase: i32) -> (sample: i32)
    ensures
        sample == spec_triangle_sample(phase as int),
        -0x4000 <= sample <= 0x4000,
{
    let low: i16 = phase as i16;
    assert(low as int == low16_signed(phase as int)) by (bit_vector)
        requires low == phase as i16;
    let wide: i32 = low as i32;
    let magnitude: i32 = if wide < 0 { -wide } else { wide };
    magnitude - 16384
}

/// Sample width of the I2S output, in bits.
pub const BIT_DEPTH: u32 = 16;

/// Tone on the left channel: A3.
pub const LEFT_FREQ: u32 = 220;

/// Tone on the right channel: A4, one octave above the left channel.
pub const RIGHT_FREQ: u32 = 440;

/// Number of stereo frames in each of the two DMA buffers.
pub const BUFFER_SIZE: usize = 960;

/// Phase after adding `step` to `phase` and keeping the low 16 bits.
pub open spec fn spec_advance_phase(phase: int, step: int) -> int {
    (phase + step) % 0x1_0000
}

pub fn advance_phase(phase: i32, step: i32) -> (next: i32)
    requires
        i32::MIN <= phase + step <= i32::MAX,
    ensures
        next == spec_advance_phase(phase as int, step as int),
        0 <= next < 0x1_0000,
{
    let sum: i32 = phase + step;
    let next: i32 = sum & 0xffff;
    assert(next as int == (sum as int) % 0x1_0000) by (bit_vector)
        requires next == sum & 0xffff;
    next
}

/// A stereo frame: the low 16 bits of the left sample in the upper half, the
/// low 16 bits of the right sample in the lower half.
pub open spec fn spec_pack_frame(left: int, right: int) -> int {
    (left % 0x1_0000) * 0x1_0000 + right % 0x1_0000
}

pub fn pack_frame(left: i32, right: i32) -> (frame: u32)
    ensures
        frame == spec_pack_frame(left as int, right as int),
        frame >> 16u32 == left as u16,
        frame & 0xffffu32 == right as u16,
{
    let frame: u32 = ((left as u16 as u32) << 16u32) | (right as u16 as u32);
    assert(frame as int == (left as int % 0x1_0000) * 0x1_0000 + right as int % 0x1_0000
        && frame >> 16u32 == left as u16 && frame & 0xffffu32 == right as u16) by (bit_vector)
        requires frame == ((left as u16 as u32) << 16u32) | (right as u16 as u32);
    frame
}

/// Abstract state of the two-channel tone generator.
pub ghost struct ToneState {
    pub left_phase: int,
    pub right_phase: int,
    pub left_step: int,
    pub right_step: int,
}

/// Phase of an oscillator `n` samples after `phase`.
pub open spec fn phase_after(phase: int, step: int, n: int) -> int {
    (phase + n * step) % 0x1_0000
}

impl ToneState {
    /// The state after `n` frames have been produced.
    pub open spec fn advanced(self, n: int) -> ToneState {
        ToneState {
            left_phase: phase_after(self.left_phase, self.left_step, n),
            right_phase: phase_after(self.right_phase, self.right_step, n),
            left_step: self.left_step,
            right_step: self.right_step,
        }
    }

    /// Frame number `k` (from 0) produced from this state: each channel
    /// advances its phase first, then samples the triangle wave.
    pub open spec fn frame(self, k: int) -> u32 {
        spec_pack_frame(
            spec_triangle_sample(phase_after(self.left_phase, self.left_step, k + 1)),
            spec_triangle_sample(phase_after(self.right_phase, self.right_step, k + 1)),
        ) as u32
    }

    /// The first `n` frames produced from this state.
    pub open spec fn frames(self, n: nat) -> Seq<u32> {
        Seq::new(n, |k: int| self.frame(k))
    }
}

/// Two triangle-wave oscillators, one per stereo channel, whose phases carry
/// over from one buffer to the next.
pub struct StereoTone {
    left_phase: i32,
    right_phase: i32,
    left_step: i32,
    right_step: i32,
}

/// Largest step for which advancing a 16-bit phase cannot overflow an `i32`.
pub open spec fn step_in_range(step: int) -> bool {
    step <= i32::MAX - 0xffff
}

impl View for StereoTone {
    type V = ToneState;

    closed spec fn view(&self) -> ToneState {
        ToneState {
            left_phase: self.left_phase as int,
            right_phase: self.right_phase as int,
            left_step: self.left_step as int,
            right_step: self.right_step as int,
        }
    }
}

impl StereoTone {
    #[verifier::type_invariant]
    spec fn inv(self) -> bool {
        &&& 0 <= self.left_phase < 0x1_0000
        &&& 0 <= self.right_phase < 0x1_0000
        &&& step_in_range(self.left_step as int)
        &&& step_in_range(self.right_step as int)
    }

    /// Oscillators for the given frequencies, both starting at phase 0.
    pub fn new(left_freq_hz: u32, right_freq_hz: u32) -> (tone: Self)
        ensures
            tone@ == (ToneState {
                left_phase: 0,
                right_phase: 0,
                left_step: spec_phase_step(left_freq_hz),
                right_step: spec_phase_step(right_freq_hz),
            }),
    {
        let left_step = phase_step(left_freq_hz);
        let right_step = phase_step(right_freq_hz);
        StereoTone { left_phase: 0, right_phase: 0, left_step, right_step }
    }

    pub fn left_phase(&self) -> (phase: i32)
        ensures
            phase == self@.left_phase,
            0 <= phase < 0x1_0000,
    {
        proof { use_type_invariant(self); }
        self.left_phase
    }

    pub fn right_phase(&self) -> (phase: i32)
        ensures
            phase == self@.right_phase,
            0 <= phase < 0x1_0000,
    {
        proof { use_type_invariant(self); }
        self.right_phase
    }

    pub fn left_step(&self) -> (step: i32)
        ensures
            step == self@.left_step,
    {
        self.left_step
    }

    pub fn right_step(&self) -> (step: i32)
        ensures
            step == self@.right_step,
    {
        self.right_step
    }

    /// Fills `buffer` with the next frames of the tone and keeps the phases
    /// for the following buffer.
    pub fn fill(&mut self, buffer: &mut [u32])
        ensures
            final(buffer)@ == old(self)@.frames(old(buffer)@.len()),
            final(self)@ == old(self)@.advanced(old(buffer)@.len() as int),
            forall|k: int| 0 <= k < old(buffer)@.len() ==> {
                &&& #[trigger] final(buffer)@[k] >> 16u32 == spec_triangle_sample(
                    (old(self)@.left_phase + (k + 1) * old(self)@.left_step) % 0x1_0000) % 0x1_0000
                &&& final(buffer)@[k] & 0xffffu32 == spec_triangle_sample(
                    (old(self)@.right_phase + (k + 1) * old(self)@.right_step) % 0x1_0000) % 0x1_0000
            },
    {
        proof { use_type_invariant(&*self); }
        let ghost start = self@;
        let n: usize = buffer.len();
        let left_step: i32 = self.left_step;
        let right_step: i32 = self.right_step;
        let mut left: i32 = self.left_phase;
        let mut right: i32 = self.right_phase;
        let mut i: usize = 0;
        proof {
            assert(left == phase_after(start.left_phase, start.left_step, 0));
            assert(right == phase_after(start.right_phase, start.right_step, 0));
        }
        while i < n
            invariant
                n == buffer@.len(),
                i <= n,
                start.left_step == left_step,
                start.right_step == right_step,
                step_in_range(left_step as int),
                step_in_range(right_step as int),
                0 <= left < 0x1_0000,
                0 <= right < 0x1_0000,
                left == phase_after(start.left_phase, left_step as int, i as int),
                right == phase_after(start.right_phase, right_step as int, i as int),
                forall|k: int| 0 <= k < i ==> buffer@[k] == #[trigger] start.frame(k),
            decreases n - i,
        {
            proof {
                lemma_phase_after_succ(start.left_phase, left_step as int, i as int);
                lemma_phase_after_succ(start.right_phase, right_step as int, i as int);
            }
            left = advance_phase(left, left_step);
            right = advance_phase(right, right_step);
            let frame = pack_frame(triangle_sample(left), triangle_sample(right));
            buffer[i] = frame;
            i = i + 1;
        }
        self.left_phase = left;
        self.right_phase = right;
        proof {
            assert(buffer@ =~= start.frames(n as nat));
            assert forall|k: int| 0 <= k < n implies {
                &&& #[trigger] buffer@[k] >> 16u32 == spec_triangle_sample(
                    (start.left_phase + (k + 1) * start.left_step) % 0x1_0000) % 0x1_0000
                &&& buffer@[k] & 0xffffu32 == spec_triangle_sample(
                    (start.right_phase + (k + 1) * start.right_step) % 0x1_0000) % 0x1_0000
            } by {
                lemma_frame_channels(start, k);
            }
        }
    }
}

/// One more sample moves the phase by one step, modulo the period.
pub proof fn lemma_phase_after_succ(phase: int, step: int, n: int)
    ensures
        phase_after(phase, step, n + 1) == spec_advance_phase(phase_after(phase, step, n), step),
{
    lemma_mul_is_distributive_add_other_way(step, n, 1);
}

/// Advancing by `a` frames and then by `n` frames lands on the same phase as
/// advancing by `a + n` frames at once.
pub proof fn lemma_phase_after_add(phase: int, step: int, a: int, n: int)
    ensures
        phase_after(phase_after(phase, step, a), step, n) == phase_after(phase, step, a + n),
{
    lemma_mul_is_distributive_add_other_way(step, a, n);
}

/// Filling one buffer of `a + b` frames gives the same frames, and leaves the
/// generator in the same state, as filling a buffer of `a` frames followed by
/// one of `b` frames: the tone runs on without a seam from buffer to buffer.
pub proof fn lemma_frames_split(state: ToneState, a: nat, b: nat)
    ensures
        state.frames(a + b) == state.frames(a) + state.advanced(a as int).frames(b),
        state.advanced(a as int).advanced(b as int) == state.advanced(a + b as int),
{
    let next = state.advanced(a as int);
    assert forall|j: int| 0 <= j < b implies #[trigger] next.frame(j) == state.frame(a + j) by {
        lemma_phase_after_add(state.left_phase, state.left_step, a as int, j + 1);
        lemma_phase_after_add(state.right_phase, state.right_step, a as int, j + 1);
    }
    lemma_phase_after_add(state.left_phase, state.left_step, a as int, b as int);
    lemma_phase_after_add(state.right_phase, state.right_step, a as int, b as int);
    assert(state.frames(a + b) =~= state.frames(a) + next.frames(b));
}

/// The triangle wave stays within one quarter of the 16-bit range around zero,
/// is periodic in the phase with period 65536, and is even.
pub proof fn lemma_triangle_shape(phase: int)
    ensures
        -0x4000 <= spec_triangle_sample(phase) <= 0x4000,
        spec_triangle_sample(phase + 0x1_0000) == spec_triangle_sample(phase),
        spec_triangle_sample(-phase) == spec_triangle_sample(phase),
{
    let m = phase % 0x1_0000;
    let q = phase / 0x1_0000;
    assert(phase == q * 0x1_0000 + m && 0 <= m < 0x1_0000);
    assert((phase + 0x1_0000) % 0x1_0000 == m) by {
        assert(phase + 0x1_0000 == (q + 1) * 0x1_0000 + m);
    }
    if m == 0 {
        assert((-phase) % 0x1_0000 == 0) by {
            assert(-phase == (-q) * 0x1_0000);
        }
    } else {
        assert((-phase) % 0x1_0000 == 0x1_0000 - m) by {
            assert(-phase == (-q - 1) * 0x1_0000 + (0x1_0000 - m));
        }
    }
}

/// Neighbouring phases give samples exactly one apart: the wave has no jumps,
/// also where the phase wraps.
pub proof fn lemma_triangle_unit_slope(phase: int)
    ensures
        spec_triangle_sample(phase + 1) - spec_triangle_sample(phase) == 1
            || spec_triangle_sample(phase) - spec_triangle_sample(phase + 1) == 1,
{
    let m = phase % 0x1_0000;
    let q = phase / 0x1_0000;
    assert(phase == q * 0x1_0000 + m && 0 <= m < 0x1_0000);
    if m == 0xffff {
        assert((phase + 1) % 0x1_0000 == 0) by {
            assert(phase + 1 == (q + 1) * 0x1_0000);
        }
    } else {
        assert((phase + 1) % 0x1_0000 == m + 1) by {
            assert(phase + 1 == q * 0x1_0000 + (m + 1));
        }
    }
}

/// The peaks of the wave: lowest at phase 0, highest half a period later.
pub proof fn lemma_triangle_extremes()
    ensures
        spec_triangle_sample(0) == -0x4000,
        spec_triangle_sample(0x8000) == 0x4000,
{
}

/// Doubling a frequency below 32768 Hz doubles its phase step, up to the one
/// unit that the rounding down can add.
pub proof fn lemma_octave_step(freq_hz: u32)
    requires
        freq_hz < 0x8000,
    ensures
        spec_phase_step((2 * freq_hz) as u32) == 2 * spec_phase_step(freq_hz)
            || spec_phase_step((2 * freq_hz) as u32) == 2 * spec_phase_step(freq_hz) + 1,
{
    let x = freq_hz as int * 0x1_0000;
    assert(x < 0x8000_0000);
    assert((2 * freq_hz) as u32 as int * 0x1_0000 == 2 * x);
}

/// Splitting a 32-bit word into its upper and lower halves.
pub proof fn lemma_u32_halves(x: u32)
    ensures
        x >> 16u32 == x / 0x1_0000,
        x & 0xffffu32 == x % 0x1_0000,
{
    assert(x >> 16u32 == x / 0x1_0000 && x & 0xffffu32 == x % 0x1_0000) by (bit_vector);
}

/// Whatever the state, frame `k` carries the left channel's sample (of the
/// left phase after `k + 1` left steps) in its upper 16 bits and the right
/// channel's sample (of the right phase after `k + 1` right steps) in its
/// lower 16 bits, each as a 16-bit two's complement value.
pub proof fn lemma_frame_channels(state: ToneState, k: int)
    ensures
        state.frame(k) >> 16u32 == spec_triangle_sample(
            (state.left_phase + (k + 1) * state.left_step) % 0x1_0000) % 0x1_0000,
        state.frame(k) & 0xffffu32 == spec_triangle_sample(
            (state.right_phase + (k + 1) * state.right_step) % 0x1_0000) % 0x1_0000,
{
    let l = spec_triangle_sample(phase_after(state.left_phase, state.left_step, k + 1));
    let r = spec_triangle_sample(phase_after(state.right_phase, state.right_step, k + 1));
    let hi = l % 0x1_0000;
    let lo = r % 0x1_0000;
    assert(0 <= hi < 0x1_0000 && 0 <= lo < 0x1_0000);
    let v = hi * 0x1_0000 + lo;
    assert(0 <= v < 0x1_0000_0000);
    assert(state.frame(k) == v);
    lemma_u32_halves(state.frame(k));
    assert(v / 0x1_0000 == hi);
    assert(v % 0x1_0000 == lo);
}

} // verus!
