//! Integer sine (CORDIC) and the phase-accumulating oscillator.
use vstd::prelude::*;
use vstd::arithmetic::power2::{pow2, lemma2_to64, lemma_pow2_strictly_increases, lemma_pow2_unfold};

verus! {

/// Output sample rate of every generated cue, in hertz.
pub const SAMPLE_RATE: u32 = 48_000;

/// Initial CORDIC `x`: the inverse CORDIC gain (0.6072...) times 32_767 · 2^16,
/// so that the rotations leave the sine, at amplitude 32_767, in `y` with 16
/// fraction bits.
pub const CORDIC_START_X: i64 = 1_304_025_951;

/// Number of CORDIC rotations.
pub const CORDIC_STEPS: usize = 20;

/// `atan(2^-k)` as a fraction of a quarter turn scaled to 2^30.
pub open spec fn cordic_angle(k: int) -> i64 {
    if k == 0 {
        536_870_912
    } else if k == 1 {
        316_933_406
    } else if k == 2 {
        167_458_907
    } else if k == 3 {
        85_004_756
    } else if k == 4 {
        42_667_331
    } else if k == 5 {
        21_354_465
    } else if k == 6 {
        10_679_838
    } else if k == 7 {
        5_340_245
    } else if k == 8 {
        2_670_163
    } else if k == 9 {
        1_335_087
    } else if k == 10 {
        667_544
    } else if k == 11 {
        333_772
    } else if k == 12 {
        166_886
    } else if k == 13 {
        83_443
    } else if k == 14 {
        41_722
    } else if k == 15 {
        20_861
    } else if k == 16 {
        10_430
    } else if k == 17 {
        5_215
    } else if k == 18 {
        2_608
    } else {
        1_304
    }
}

fn cordic_step_angle(k: usize) -> (r: i64)
    requires
        k < CORDIC_STEPS,
    ensures
        r == cordic_angle(k as int),
        0 < r <= 536_870_912,
{
    match k {
        0 => 536_870_912,
        1 => 316_933_406,
        2 => 167_458_907,
        3 => 85_004_756,
        4 => 42_667_331,
        5 => 21_354_465,
        6 => 10_679_838,
        7 => 5_340_245,
        8 => 2_670_163,
        9 => 1_335_087,
        10 => 667_544,
        11 => 333_772,
        12 => 166_886,
        13 => 83_443,
        14 => 41_722,
        15 => 20_861,
        16 => 10_430,
        17 => 5_215,
        18 => 2_608,
        _ => 1_304,
    }
}

/// `(x, y, angle)` after `steps` CORDIC rotations that drive `angle` toward zero.
pub open spec fn cordic_state(angle: i64, steps: nat) -> (i64, i64, i64)
    decreases steps,
{
    if steps == 0 {
        (CORDIC_START_X, 0, angle)
    } else {
        let previous = cordic_state(angle, (steps - 1) as nat);
        let x = previous.0;
        let y = previous.1;
        let a = previous.2;
        let shift = (steps - 1) as u32;
        if a >= 0 {
            (
                (x - (y >> shift)) as i64,
                (y + (x >> shift)) as i64,
                (a - cordic_angle(steps - 1)) as i64,
            )
        } else {
            (
                (x + (y >> shift)) as i64,
                (y - (x >> shift)) as i64,
                (a + cordic_angle(steps - 1)) as i64,
            )
        }
    }
}

/// Rounds a value scaled by 2^16 to the nearest integer, halves away from zero
/// on the positive side and toward negative infinity on the negative side.
pub open spec fn round_q16(signed: i64) -> i64 {
    if signed >= 0 {
        ((signed + 0x8000) as i64) >> 16u32
    } else {
        ((signed - 0x8000) as i64) >> 16u32
    }
}

pub open spec fn clamp_amplitude(value: i64) -> i64 {
    if value < -32_767 {
        -32_767i64
    } else if value > 32_767 {
        32_767
    } else {
        value
    }
}

pub open spec fn phase_quadrant(phase: u32) -> u32 {
    phase / 0x4000_0000
}

pub open spec fn phase_offset(phase: u32) -> u32 {
    phase % 0x4000_0000
}

/// Sine of `phase` (a full turn is 2^32) as a signed amplitude of at most 32_767.
pub open spec fn spec_sine_q15(phase: u32) -> i32 {
    let quadrant = phase_quadrant(phase);
    let offset = phase_offset(phase) as i64;
    if offset == 0 {
        if quadrant == 1 {
            32_767
        } else if quadrant == 3 {
            -32_767i32
        } else {
            0
        }
    } else {
        let angle: i64 = if quadrant == 0 || quadrant == 2 {
            offset
        } else {
            (0x4000_0000 - offset) as i64
        };
        let sign: i64 = if quadrant <= 1 {
            1
        } else {
            -1i64
        };
        let y = cordic_state(angle, CORDIC_STEPS as nat).1;
        clamp_amplitude(round_q16((sign * y) as i64)) as i32
    }
}

proof fn lemma_shr_shrinks(v: i64, s: u32)
    requires
        s < 64,
    ensures
        v >= 0 ==> 0 <= (v >> s) <= v,
        v < 0 ==> v <= (v >> s) < 0,
{
    assert(v >= 0 ==> 0 <= (v >> s) <= v) by (bit_vector)
        requires
            s < 64,
    ;
    assert(v < 0 ==> v <= (v >> s) < 0) by (bit_vector)
        requires
            s < 64,
    ;
}

/// The sine of `phase`, with a full turn spanning the whole `u32` range.
pub fn sine_q15(phase: u32) -> (r: i32)
    ensures
        r == spec_sine_q15(phase),
        -32_767 <= r <= 32_767,
{
    let quadrant = phase >> 30u32;
    let offset_bits = phase & 0x3fff_ffffu32;
    proof {
        assert(quadrant == phase / 0x4000_0000) by (bit_vector)
            requires
                quadrant == phase >> 30u32,
        ;
        assert(offset_bits == phase % 0x4000_0000) by (bit_vector)
            requires
                offset_bits == phase & 0x3fff_ffffu32,
        ;
    }
    let offset = offset_bits as i64;
    if offset == 0 {
        return if quadrant == 1 {
            32_767
        } else if quadrant == 3 {
            -32_767
        } else {
            0
        };
    }
    let mut angle: i64 = if quadrant == 0 || quadrant == 2 {
        offset
    } else {
        0x4000_0000 - offset
    };
    let sign: i64 = if quadrant <= 1 {
        1
    } else {
        -1
    };
    let ghost start_angle = angle;
    let mut x: i64 = CORDIC_START_X;
    let mut y: i64 = 0;
    let mut shift: usize = 0;
    let ghost mut bound: int = 0x8000_0000;
    proof {
        lemma2_to64();
    }
    while shift < CORDIC_STEPS
        invariant
            0 <= start_angle <= 0x4000_0000,
            shift <= CORDIC_STEPS,
            (x, y, angle) == cordic_state(start_angle, shift as nat),
            bound == 0x8000_0000 * pow2(shift as nat),
            -bound <= x <= bound,
            -bound <= y <= bound,
            -0x8000_0000 <= angle <= 0x8000_0000,
        decreases CORDIC_STEPS - shift,
    {
        let step = cordic_step_angle(shift);
        proof {
            lemma_shr_shrinks(x, shift as u32);
            lemma_shr_shrinks(y, shift as u32);
            lemma_pow2_strictly_increases(shift as nat, 20);
            lemma_pow2_unfold((shift + 1) as nat);
            lemma2_to64();
        }
        let (next_x, next_y) = if angle >= 0 {
            (x - (y >> (shift as u32)), y + (x >> (shift as u32)))
        } else {
            (x + (y >> (shift as u32)), y - (x >> (shift as u32)))
        };
        x = next_x;
        y = next_y;
        angle = angle + if angle >= 0 {
            -step
        } else {
            step
        };
        proof {
            bound = 2 * bound;
        }
        shift = shift + 1;
    }
    proof {
        lemma_pow2_strictly_increases(19, 20);
        lemma2_to64();
        assert((1i64 << 15u32) == 0x8000) by (bit_vector);
    }
    let signed = sign * y;
    let rounded = if signed >= 0 {
        (signed + (1i64 << 15u32)) >> 16u32
    } else {
        (signed - (1i64 << 15u32)) >> 16u32
    };
    let clamped = if rounded < -32_767 {
        -32_767
    } else if rounded > 32_767 {
        32_767
    } else {
        rounded
    };
    clamped as i32
}

} // verus!

verus! {

/// The sine is mirror-symmetric about the quarter turn:
/// rising to the peak and falling from it pass through the same amplitudes.
pub proof fn lemma_sine_q15_mirror_at_quarter_turn(offset: u32)
    requires
        offset <= 0x4000_0000,
    ensures
        spec_sine_q15((0x4000_0000 + offset) as u32) == spec_sine_q15(
            (0x4000_0000 - offset) as u32,
        ),
{
}

/// The sine is mirror-symmetric about the three-quarter turn (the trough).
pub proof fn lemma_sine_q15_mirror_at_three_quarter_turn(offset: u32)
    requires
        offset < 0x4000_0000,
    ensures
        spec_sine_q15((0xC000_0000 + offset) as u32) == spec_sine_q15(
            (0xC000_0000 - offset) as u32,
        ),
{
}

/// The four cardinal phases hit zero and the two extreme amplitudes exactly.
pub proof fn lemma_sine_q15_cardinal_phases()
    ensures
        spec_sine_q15(0) == 0,
        spec_sine_q15(0x4000_0000) == 32_767,
        spec_sine_q15(0x8000_0000) == 0,
        spec_sine_q15(0xC000_0000) == -32_767,
{
}

/// Phase advance per sample for a frequency given in millihertz.
pub open spec fn phase_increment(frequency_millihz: u32) -> u32 {
    (frequency_millihz * 0x1_0000_0000 / 48_000_000) as u32
}

/// A phase accumulator whose full turn spans the `u32` range.
pub struct Oscillator {
    pub phase: u32,
}

impl Default for Oscillator {
    fn default() -> (r: Self)
        ensures
            r.phase == 0,
    {
        Oscillator { phase: 0 }
    }
}

impl Oscillator {
    /// Returns the current phase and advances it by one sample at `frequency_millihz`.
    pub fn next_phase(&mut self, frequency_millihz: u32) -> (r: u32)
        ensures
            r == old(self).phase,
            final(self).phase == vstd::wrapping::u32_specs::wrapping_add(
                old(self).phase,
                phase_increment(frequency_millihz),
            ),
    {
        let phase = self.phase;
        proof {
            assert((1u64 << 32u64) == 0x1_0000_0000) by (bit_vector);
            assert(frequency_millihz * 0x1_0000_0000 <= 0xffff_ffff * 0x1_0000_0000) by (
            nonlinear_arith)
                requires
                    frequency_millihz <= 0xffff_ffff,
            ;
        }
        let scaled: u64 = (frequency_millihz as u64) * (1u64 << 32u64);
        let increment_wide: u64 = scaled / ((SAMPLE_RATE as u64) * 1_000);
        let increment = #[verifier::truncate] (increment_wide as u32);
        self.phase = self.phase.wrapping_add(increment);
        phase
    }

    /// Returns the sine at the current phase and advances the phase.
    pub fn next(&mut self, frequency_millihz: u32) -> (r: i32)
        ensures
            r == spec_sine_q15(old(self).phase),
            final(self).phase == vstd::wrapping::u32_specs::wrapping_add(
                old(self).phase,
                phase_increment(frequency_millihz),
            ),
            -32_767 <= r <= 32_767,
    {
        sine_q15(self.next_phase(frequency_millihz))
    }
}

} // verus!

verus! {

pub open spec fn spec_samples_for_milliseconds(milliseconds: usize) -> usize {
    (48_000 * milliseconds / 1_000) as usize
}

/// Number of samples spanning `milliseconds` at the cue sample rate, rounded down.
pub fn samples_for_milliseconds(milliseconds: usize) -> (r: usize)
    requires
        48_000 * milliseconds <= usize::MAX,
    ensures
        r == spec_samples_for_milliseconds(milliseconds),
{
    SAMPLE_RATE as usize * milliseconds / 1_000
}

} // verus!

verus! {

/// Every sine value lies in `[-32_767, 32_767]`.
pub proof fn lemma_sine_q15_range(phase: u32)
    ensures
        -32_767 <= spec_sine_q15(phase) <= 32_767,
{
}

} // verus!
