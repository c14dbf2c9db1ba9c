//! Loudness measurement and normalization of synthesized cues.
use vstd::prelude::*;
use vstd::arithmetic::power2::{
    pow2, lemma2_to64, lemma2_to64_rest, lemma_pow2_adds, lemma_pow2_pos, lemma_pow2_unfold, lemma_pow2_strictly_increases,
};
use crate::q15::{edge_envelope, edge_envelope_defined, lemma_mul_q15_attenuates, lemma_mul_q15_unit, lemma_ratio_q15_range, lemma_ratio_q15_defined, lemma_smootherstep_range, mul_q15, spec_edge_envelope, spec_mul_q15, spec_ratio_q15, spec_smootherstep_q15, trunc_div};
use crate::sine::samples_for_milliseconds;

verus! {

/// `r` is the integer square root of `value`: the largest `r` with `r * r <= value`.
pub open spec fn is_isqrt(value: int, r: int) -> bool {
    0 <= r && r * r <= value && value < (r + 1) * (r + 1)
}

/// The integer square root, rounded down.
pub open spec fn spec_isqrt(value: nat) -> nat {
    choose|r: nat| is_isqrt(value as int, r as int)
}

proof fn lemma_square_monotone(a: int, b: int)
    requires
        0 <= a <= b,
    ensures
        a * a <= b * b,
{
    assert(a * a <= b * b) by (nonlinear_arith)
        requires
            0 <= a <= b,
    ;
}

/// At most one value is the integer square root of a number.
pub proof fn lemma_isqrt_unique(value: int, r1: int, r2: int)
    requires
        is_isqrt(value, r1),
        is_isqrt(value, r2),
    ensures
        r1 == r2,
{
    if r1 < r2 {
        lemma_square_monotone(r1 + 1, r2);
    } else if r2 < r1 {
        lemma_square_monotone(r2 + 1, r1);
    }
}

/// Every natural number has an integer square root, and `spec_isqrt` is it.
pub proof fn lemma_isqrt_exists(value: nat)
    ensures
        is_isqrt(value as int, spec_isqrt(value) as int),
    decreases value,
{
    if value == 0 {
        assert(is_isqrt(0, 0));
    } else {
        lemma_isqrt_exists((value - 1) as nat);
        let r = spec_isqrt((value - 1) as nat);
        if value < (r + 1) * (r + 1) {
            assert(is_isqrt(value as int, r as int));
        } else {
            assert((r + 1) * (r + 1) == value);
            assert(value < (r + 2) * (r + 2)) by (nonlinear_arith)
                requires
                    (r + 1) * (r + 1) == value,
                    r >= 0,
            ;
            assert(is_isqrt(value as int, (r + 1) as int));
        }
    }
}

/// Halving a value keeps `pow2(log) * remaining <= value < pow2(log) * (remaining + 1)`
/// with one more factor of two on the power.
proof fn lemma_halving_step(value: int, p: int, remaining: int)
    requires
        p > 0,
        remaining >= 1,
        p * remaining <= value < p * (remaining + 1),
    ensures
        (2 * p) * (remaining / 2) <= value < (2 * p) * (remaining / 2 + 1),
{
    let q = remaining / 2;
    assert(remaining == 2 * q + remaining % 2);
    assert((2 * p) * q <= p * remaining) by (nonlinear_arith)
        requires
            remaining == 2 * q + remaining % 2,
            0 <= remaining % 2,
            p > 0,
    ;
    assert(p * (remaining + 1) <= (2 * p) * (q + 1)) by (nonlinear_arith)
        requires
            remaining == 2 * q + remaining % 2,
            remaining % 2 <= 1,
            p > 0,
    ;
}

/// The base-2 logarithm of `value`, rounded down.
fn ilog2_u128(value: u128) -> (r: u32)
    requires
        value > 0,
    ensures
        r < 128,
        pow2(r as nat) <= value < pow2((r + 1) as nat),
{
    proof {
        lemma2_to64();
        lemma2_to64_rest();
        lemma_pow2_adds(64, 63);
        assert(pow2(127) == pow2(64) * pow2(63));
        assert(pow2(64) * pow2(63) == 0x8000_0000_0000_0000_0000_0000_0000_0000) by (
        nonlinear_arith)
            requires
                pow2(64) == 0x1_0000_0000_0000_0000,
                pow2(63) == 0x8000_0000_0000_0000,
        ;
    }
    let mut remaining: u128 = value;
    let mut log: u32 = 0;
    while remaining > 1
        invariant
            1 <= remaining,
            log < 128,
            pow2(log as nat) * remaining <= value < pow2(log as nat) * (remaining + 1),
            pow2(127) == 0x8000_0000_0000_0000_0000_0000_0000_0000,
        decreases remaining,
    {
        proof {
            lemma_pow2_pos(log as nat);
            lemma_halving_step(value as int, pow2(log as nat) as int, remaining as int);
            lemma_pow2_unfold((log + 1) as nat);
            if log >= 127 {
                if log > 127 {
                    lemma_pow2_strictly_increases(127, log as nat);
                }
                assert(pow2(log as nat) * remaining >= pow2(127) * 2) by (nonlinear_arith)
                    requires
                        pow2(log as nat) >= pow2(127),
                        remaining >= 2,
                ;
                assert(false);
            }
        }
        remaining = remaining / 2;
        log = log + 1;
    }
    proof {
        assert(remaining == 1);
        lemma_pow2_unfold((log + 1) as nat);
        assert(pow2(log as nat) * remaining == pow2(log as nat));
        assert(pow2(log as nat) * (remaining + 1) == 2 * pow2(log as nat));
    }
    log
}

proof fn lemma_shl_one_u128(shift: u32)
    requires
        shift < 128,
    ensures
        (1u128 << shift) == pow2(shift as nat),
    decreases shift,
{
    if shift == 0 {
        assert((1u128 << 0u32) == 1u128) by (bit_vector);
        lemma2_to64();
    } else {
        lemma_shl_one_u128((shift - 1) as u32);
        assert((1u128 << shift) == 2 * (1u128 << ((shift - 1) as u32))) by (bit_vector)
            requires
                0 < shift < 128,
        ;
        lemma_pow2_unfold(shift as nat);
    }
}

/// The floor of `(e + value / e) / 2` never undershoots the integer square root.
proof fn lemma_newton_step_above_root(value: int, e: int, r: int)
    requires
        is_isqrt(value, r),
        e > 0,
    ensures
        (e + value / e) / 2 >= r,
{
    let q = value / e;
    assert(value < e * (q + 1)) by (nonlinear_arith)
        requires
            q == value / e,
            e > 0,
    ;
    if e + q < 2 * r {
        // AM-GM: e * (q + 1) <= ((e + q + 1) / 2)^2 <= r^2 <= value.
        assert(4 * (e * (q + 1)) <= (e + q + 1) * (e + q + 1)) by (nonlinear_arith);
        assert((e + q + 1) * (e + q + 1) <= (2 * r) * (2 * r)) by (nonlinear_arith)
            requires
                0 <= e + q + 1 <= 2 * r,
        ;
        assert((2 * r) * (2 * r) == 4 * (r * r)) by (nonlinear_arith);
        assert(4 * (e * (q + 1)) <= 4 * (r * r));
        assert(false);
    }
}

/// Newton's iteration stops only at the integer square root.
proof fn lemma_newton_stop_is_root(value: int, e: int, r: int)
    requires
        is_isqrt(value, r),
        e >= r,
        e > 0,
        (e + value / e) / 2 >= e,
    ensures
        e == r,
{
    let q = value / e;
    assert(q >= e);
    assert(e * q <= value) by (nonlinear_arith)
        requires
            q == value / e,
            e > 0,
    ;
    assert(e * e <= e * q) by (nonlinear_arith)
        requires
            q >= e,
            e > 0,
    ;
    if e > r {
        lemma_square_monotone(r + 1, e);
    }
}

/// The integer square root of `value`, by Newton's iteration from above.
pub fn integer_sqrt(value: u128) -> (r: u128)
    ensures
        is_isqrt(value as int, r as int),
        r == spec_isqrt(value as nat),
{
    proof {
        lemma_isqrt_exists(value as nat);
    }
    let ghost root = spec_isqrt(value as nat) as int;
    if value < 2 {
        proof {
            if value == 0 {
                assert(is_isqrt(0, 0));
            } else {
                assert(is_isqrt(1, 1));
            }
            lemma_isqrt_unique(value as int, value as int, root);
        }
        return value;
    }
    let log = ilog2_u128(value);
    let shift = log / 2 + 1;
    proof {
        lemma_shl_one_u128(shift);
        lemma_pow2_adds(shift as nat, shift as nat);
        assert(pow2((log + 1) as nat) <= pow2((shift + shift) as nat)) by {
            if log + 1 < shift + shift {
                lemma_pow2_strictly_increases((log + 1) as nat, (shift + shift) as nat);
            }
        }
        lemma_pow2_strictly_increases(shift as nat, 65);
        lemma2_to64();
        lemma_pow2_unfold(65);
    }
    let mut estimate: u128 = 1u128 << shift;
    proof {
        let e = estimate as int;
        assert(value < e * e);
        if e < root {
            lemma_square_monotone(e, root);
        }
    }
    loop
        invariant
            is_isqrt(value as int, root),
            root == spec_isqrt(value as nat),
            value >= 2,
            estimate >= root,
            estimate > 0,
            estimate <= 0x2_0000_0000_0000_0000,
        decreases estimate,
    {
        proof {
            let e = estimate as int;
            assert(root >= 1) by (nonlinear_arith)
                requires
                    value >= 2,
                    value < (root + 1) * (root + 1),
                    root >= 0,
            ;
            let v = value as int;
            assert(v / e <= root + 3) by (nonlinear_arith)
                requires
                    v < (root + 1) * (root + 1),
                    e >= root >= 1,
            ;
        }
        let next = (estimate + value / estimate) / 2;
        proof {
            lemma_newton_step_above_root(value as int, estimate as int, root);
        }
        if next >= estimate {
            proof {
                lemma_newton_stop_is_root(value as int, estimate as int, root);
            }
            return estimate;
        }
        estimate = next;
    }
}

} // verus!

verus! {

/// Sum of squares of `width` consecutive samples starting at `start`.
pub open spec fn window_sum(samples: Seq<i32>, start: int, width: int) -> int
    decreases width,
{
    if width <= 0 {
        0
    } else {
        window_sum(samples, start, width - 1) + samples[start + width - 1] * samples[start + width
            - 1]
    }
}

/// The window width used for `samples_len` samples and a requested maximum.
pub open spec fn rms_window(samples_len: int, maximum_window: int) -> int {
    let capped = if samples_len <= maximum_window {
        samples_len
    } else {
        maximum_window
    };
    if capped >= 1 {
        capped
    } else {
        1
    }
}

/// The largest window sum among windows starting at `0..=last_start`.
pub open spec fn max_window_sum(samples: Seq<i32>, width: int, last_start: int) -> int
    decreases last_start,
{
    if last_start <= 0 {
        window_sum(samples, 0, width)
    } else {
        let previous = max_window_sum(samples, width, last_start - 1);
        let current = window_sum(samples, last_start, width);
        if current > previous {
            current
        } else {
            previous
        }
    }
}

/// RMS of the loudest window of `rms_window(len, maximum_window)` samples, rounded down.
pub open spec fn spec_maximum_window_rms(samples: Seq<i32>, maximum_window: usize) -> u64 {
    let width = rms_window(samples.len() as int, maximum_window as int);
    spec_isqrt(
        (max_window_sum(samples, width, samples.len() - width) / width) as nat,
    ) as u64
}

proof fn lemma_square_bounds(v: i32)
    ensures
        0 <= v * v <= 0x4000_0000_0000_0000,
{
    assert(0 <= v * v <= 0x4000_0000_0000_0000) by (nonlinear_arith)
        requires
            -0x8000_0000 <= v <= 0x7fff_ffff,
    ;
}

proof fn lemma_window_bound_fits(width: int)
    requires
        1 <= width <= usize::MAX,
    ensures
        width * 0x4000_0000_0000_0000 + 0x4000_0000_0000_0000 <= 0x7fff_ffff_ffff_ffff_ffff_ffff_ffff_ffff,
{
    assert(width * 0x4000_0000_0000_0000 + 0x4000_0000_0000_0000 <= 0x7fff_ffff_ffff_ffff_ffff_ffff_ffff_ffff) by (nonlinear_arith)
        requires
            1 <= width <= 0xffff_ffff_ffff_ffff,
    ;
}

proof fn lemma_window_sum_bounds(samples: Seq<i32>, start: int, width: int)
    requires
        0 <= start,
        0 <= width,
        start + width <= samples.len(),
    ensures
        0 <= window_sum(samples, start, width) <= width * 0x4000_0000_0000_0000,
    decreases width,
{
    if width > 0 {
        lemma_window_sum_bounds(samples, start, width - 1);
        let v = samples[start + width - 1];
        assert(0 <= v * v <= 0x4000_0000_0000_0000) by (nonlinear_arith)
            requires
                -0x8000_0000 <= v <= 0x7fff_ffff,
        ;
    }
}

proof fn lemma_window_sum_slide(samples: Seq<i32>, start: int, width: int)
    requires
        0 <= start,
        1 <= width,
        start + width < samples.len(),
    ensures
        window_sum(samples, start + 1, width) == window_sum(samples, start, width)
            - samples[start] * samples[start] + samples[start + width] * samples[start + width],
    decreases width,
{
    if width > 1 {
        lemma_window_sum_slide(samples, start, width - 1);
    } else {
        assert(window_sum(samples, start + 1, 0) == 0);
        assert(window_sum(samples, start, 0) == 0);
    }
}

proof fn lemma_max_window_sum_bounds(samples: Seq<i32>, width: int, last_start: int)
    requires
        0 <= last_start,
        1 <= width,
        last_start + width <= samples.len(),
    ensures
        0 <= max_window_sum(samples, width, last_start) <= width * 0x4000_0000_0000_0000,
    decreases last_start,
{
    lemma_window_sum_bounds(samples, last_start, width);
    lemma_window_sum_bounds(samples, 0, width);
    if last_start > 0 {
        lemma_max_window_sum_bounds(samples, width, last_start - 1);
    }
}

/// The RMS of the loudest run of `maximum_window` samples (or of all of them,
/// when there are fewer), rounded down.
pub fn maximum_window_rms(samples: &[i32], maximum_window: usize) -> (r: u64)
    requires
        samples@.len() >= 1,
    ensures
        r == spec_maximum_window_rms(samples@, maximum_window),
        r <= 0x8000_0000,
{
    let len = samples.len();
    let capped = if len <= maximum_window {
        len
    } else {
        maximum_window
    };
    let window = if capped >= 1 {
        capped
    } else {
        1
    };
    let mut sum: i128 = 0;
    let mut index: usize = 0;
    while index < window
        invariant
            window <= samples@.len(),
            index <= window,
            sum == window_sum(samples@, 0, index as int),
        decreases window - index,
    {
        proof {
            lemma_window_sum_bounds(samples@, 0, index + 1);
            lemma_square_bounds(samples@[index as int]);
            lemma_window_bound_fits(index + 1);
        }
        let value = samples[index] as i128;
        sum = sum + value * value;
        index = index + 1;
    }
    let mut maximum_sum: i128 = sum;
    let mut index: usize = window;
    while index < len
        invariant
            len == samples@.len(),
            1 <= window <= index <= len,
            sum == window_sum(samples@, index - window, window as int),
            maximum_sum == max_window_sum(samples@, window as int, index - window),
        decreases len - index,
    {
        proof {
            lemma_window_sum_bounds(samples@, index - window, window as int);
            lemma_window_sum_slide(samples@, index - window, window as int);
            lemma_window_sum_bounds(samples@, index - window + 1, window as int);
            lemma_square_bounds(samples@[index as int]);
            lemma_square_bounds(samples@[index - window]);
            lemma_window_bound_fits(window as int);
        }
        let entering = samples[index] as i128;
        let leaving = samples[index - window] as i128;
        sum = sum + entering * entering;
        sum = sum - leaving * leaving;
        if sum > maximum_sum {
            maximum_sum = sum;
        }
        index = index + 1;
    }
    proof {
        lemma_max_window_sum_bounds(samples@, window as int, len - window);
        assert(maximum_sum / (window as i128) <= 0x4000_0000_0000_0000) by (nonlinear_arith)
            requires
                0 <= maximum_sum <= window * 0x4000_0000_0000_0000,
                window >= 1,
        ;
        lemma_isqrt_exists((maximum_sum / (window as i128)) as nat);
        let r = spec_isqrt((maximum_sum / (window as i128)) as nat);
        assert(r <= 0x8000_0000) by (nonlinear_arith)
            requires
                r * r <= 0x4000_0000_0000_0000,
                r >= 0,
        ;
    }
    let mean_square: i128 = maximum_sum / (window as i128);
    integer_sqrt(mean_square as u128) as u64
}

} // verus!

verus! {

/// Window of the momentary loudness measure: 100 ms.
pub const MOMENTARY_WINDOW_SAMPLES: usize = 4_800;

/// Target RMS of the loudest momentary window (about -23 dBFS).
pub const TARGET_MOMENTARY_RMS: u64 = 2_320;

/// Highest allowed absolute sample value after normalization, before rounding.
pub const PEAK_CEILING: u64 = 8_231;

/// Fade-in of the normalization taper: 12 ms.
pub const TAPER_ATTACK_SAMPLES: usize = 576;

/// Fade-out of the normalization taper: 32 ms.
pub const TAPER_RELEASE_SAMPLES: usize = 1_536;

/// Gain applied at sample `index` of `len` samples before measuring.
pub open spec fn taper_at(len: usize, index: int) -> i32 {
    spec_edge_envelope(index as usize, len, 576, 1_536)
}

pub open spec fn tapered_at(samples: Seq<i32>, index: int) -> i32 {
    spec_mul_q15(samples[index], taper_at(samples.len() as usize, index))
}

pub open spec fn taper_total(len: usize, count: int) -> int
    decreases count,
{
    if count <= 0 {
        0
    } else {
        taper_total(len, count - 1) + taper_at(len, count - 1)
    }
}

pub open spec fn tapered_total(samples: Seq<i32>, count: int) -> int
    decreases count,
{
    if count <= 0 {
        0
    } else {
        tapered_total(samples, count - 1) + tapered_at(samples, count - 1)
    }
}

/// DC offset of the tapered signal, as the amplitude of a tapered correction.
pub open spec fn dc_correction(samples: Seq<i32>) -> int {
    let taper_sum = taper_total(samples.len() as usize, samples.len() as int);
    trunc_div(
        tapered_total(samples, samples.len() as int) * 32_768,
        if taper_sum >= 1 {
            taper_sum
        } else {
            1
        },
    )
}

pub open spec fn centered_at(samples: Seq<i32>, index: int) -> int {
    tapered_at(samples, index) - spec_mul_q15(
        dc_correction(samples) as i32,
        taper_at(samples.len() as usize, index),
    )
}

/// The tapered signal with its DC offset removed.
pub open spec fn centered_signal(samples: Seq<i32>) -> Seq<i32> {
    Seq::new(samples.len(), |index: int| centered_at(samples, index) as i32)
}

pub open spec fn abs_int(value: int) -> int {
    if value < 0 {
        -value
    } else {
        value
    }
}

/// The largest absolute value among the first `count` samples (0 when there are none).
pub open spec fn peak_abs(samples: Seq<i32>, count: int) -> int
    decreases count,
{
    if count <= 0 {
        0
    } else {
        let previous = peak_abs(samples, count - 1);
        let current = abs_int(samples[count - 1] as int);
        if current > previous {
            current
        } else {
            previous
        }
    }
}

/// `(numerator, denominator)` of the normalization gain: reach the target
/// momentary RMS unless that would push the peak above the ceiling.
pub open spec fn loudness_gain(centered: Seq<i32>) -> (int, int) {
    let raw_peak = peak_abs(centered, centered.len() as int);
    let peak = if raw_peak >= 1 {
        raw_peak
    } else {
        1
    };
    let raw_rms = spec_maximum_window_rms(centered, 4_800) as int;
    let rms = if raw_rms >= 1 {
        raw_rms
    } else {
        1
    };
    if 2_320 * peak <= 8_231 * rms {
        (2_320, rms)
    } else {
        (8_231, peak)
    }
}

/// `value * numerator / denominator`, rounded half away from zero and saturated to `i16`.
pub open spec fn scaled_sample(value: i32, numerator: int, denominator: int) -> i16 {
    let product = value * numerator;
    let half = denominator / 2;
    let rounded = if product >= 0 {
        (product + half) / denominator
    } else {
        trunc_div(product - half, denominator)
    };
    (if rounded < -32_768 {
        -32_768
    } else if rounded > 32_767 {
        32_767
    } else {
        rounded
    }) as i16
}

pub open spec fn spec_normalize_loudness(samples: Seq<i32>) -> Seq<i16> {
    let centered = centered_signal(samples);
    let gain = loudness_gain(centered);
    Seq::new(samples.len(), |index: int| scaled_sample(centered[index], gain.0, gain.1))
}

/// Inputs that `normalize_loudness` processes without overflow: a non-empty signal
/// whose running sums fit in `i64` and whose centered samples fit in `i32`.
pub open spec fn normalize_loudness_defined(samples: Seq<i32>) -> bool {
    &&& samples.len() >= 1
    &&& samples.len() <= usize::MAX
    &&& taper_total(samples.len() as usize, samples.len() as int) <= i64::MAX
    &&& forall|count: int|
        0 <= count <= samples.len() ==> i64::MIN <= #[trigger] tapered_total(samples, count)
            <= i64::MAX
    &&& i64::MIN <= tapered_total(samples, samples.len() as int) * 32_768 <= i64::MAX
    &&& forall|index: int|
        0 <= index < samples.len() ==> i32::MIN <= #[trigger] centered_at(samples, index)
            <= i32::MAX
}

proof fn lemma_taper_defined(len: usize, index: int)
    requires
        0 <= index < len,
    ensures
        edge_envelope_defined(index as usize, len, 576, 1_536),
        0 <= taper_at(len, index) <= 32_768,
{
    lemma_ratio_q15_defined(index as usize, 576);
    lemma_ratio_q15_defined((len - 1 - index) as usize, 1_536);
    lemma_smootherstep_range(spec_ratio_q15(index as usize, 576));
    lemma_smootherstep_range(spec_ratio_q15((len - 1 - index) as usize, 1_536));
    lemma_mul_q15_unit(
        spec_smootherstep_q15(spec_ratio_q15(index as usize, 576)),
        spec_smootherstep_q15(spec_ratio_q15((len - 1 - index) as usize, 1_536)),
    );
}

proof fn lemma_taper_total_monotone(len: usize, count: int)
    requires
        0 <= count <= len,
    ensures
        0 <= taper_total(len, count) <= taper_total(len, len as int),
    decreases len - count,
{
    if count < len {
        lemma_taper_total_monotone(len, count + 1);
        lemma_taper_defined(len, count);
    }
    lemma_taper_total_nonneg(len, count);
}

proof fn lemma_taper_total_nonneg(len: usize, count: int)
    requires
        0 <= count <= len,
    ensures
        0 <= taper_total(len, count),
    decreases count,
{
    if count > 0 {
        lemma_taper_total_nonneg(len, count - 1);
        lemma_taper_defined(len, count - 1);
    }
}

/// Peak absolute value as an unsigned integer.
fn abs_u64(value: i32) -> (r: u64)
    ensures
        r == abs_int(value as int),
{
    if value < 0 {
        (-(value as i64)) as u64
    } else {
        value as u64
    }
}

/// Tapers, centers, and scales a synthesized cue to a common loudness,
/// keeping its peak under `PEAK_CEILING` (up to rounding).
pub fn normalize_loudness(samples: &[i32]) -> (r: Vec<i16>)
    requires
        normalize_loudness_defined(samples@),
    ensures
        r@ == spec_normalize_loudness(samples@),
{
    let len = samples.len();
    let ghost s = samples@;
    let mut taper: Vec<i32> = Vec::new();
    let mut index: usize = 0;
    while index < len
        invariant
            len == s.len(),
            s == samples@,
            index <= len,
            taper@.len() == index,
            forall|i: int| 0 <= i < index ==> #[trigger] taper@[i] == taper_at(len, i),
        decreases len - index,
    {
        proof {
            lemma_taper_defined(len, index as int);
        }
        let attack = samples_for_milliseconds(12);
        let release = samples_for_milliseconds(32);
        taper.push(edge_envelope(index, len, attack, release));
        index = index + 1;
    }
    let mut tapered: Vec<i32> = Vec::new();
    let mut taper_sum: i64 = 0;
    let mut tapered_sum: i64 = 0;
    let mut index: usize = 0;
    while index < len
        invariant
            len == s.len(),
            s == samples@,
            normalize_loudness_defined(s),
            index <= len,
            taper@.len() == len,
            forall|i: int| 0 <= i < len ==> #[trigger] taper@[i] == taper_at(len, i),
            tapered@.len() == index,
            forall|i: int| 0 <= i < index ==> #[trigger] tapered@[i] == tapered_at(s, i),
            taper_sum == taper_total(len, index as int),
            tapered_sum == tapered_total(s, index as int),
        decreases len - index,
    {
        proof {
            lemma_taper_total_monotone(len, index + 1);
            assert(i64::MIN <= tapered_total(s, index + 1) <= i64::MAX);
        }
        let value = mul_q15(samples[index], taper[index]);
        tapered.push(value);
        taper_sum = taper_sum + taper[index] as i64;
        tapered_sum = tapered_sum + value as i64;
        index = index + 1;
    }
    let divisor: i64 = if taper_sum >= 1 {
        taper_sum
    } else {
        1
    };
    let correction: i64 = tapered_sum * 32_768 / divisor;
    assert(correction == dc_correction(s));
    let correction_q15: i32 = #[verifier::truncate] (correction as i32);
    let mut centered: Vec<i32> = Vec::new();
    let mut index: usize = 0;
    while index < len
        invariant
            len == s.len(),
            s == samples@,
            normalize_loudness_defined(s),
            index <= len,
            taper@.len() == len,
            forall|i: int| 0 <= i < len ==> #[trigger] taper@[i] == taper_at(len, i),
            tapered@.len() == len,
            forall|i: int| 0 <= i < len ==> #[trigger] tapered@[i] == tapered_at(s, i),
            correction_q15 == dc_correction(s) as i32,
            centered@.len() == index,
            forall|i: int| 0 <= i < index ==> #[trigger] centered@[i] == centered_signal(s)[i],
        decreases len - index,
    {
        proof {
            assert(i32::MIN <= centered_at(s, index as int) <= i32::MAX);
        }
        centered.push(tapered[index] - mul_q15(correction_q15, taper[index]));
        index = index + 1;
    }
    assert(centered@ == centered_signal(s));
    let mut peak: u64 = 0;
    let mut index: usize = 0;
    while index < len
        invariant
            len == s.len(),
            index <= len,
            centered@ == centered_signal(s),
            peak == peak_abs(centered@, index as int),
            peak <= 0x8000_0000,
        decreases len - index,
    {
        let magnitude = abs_u64(centered[index]);
        if magnitude > peak {
            peak = magnitude;
        }
        index = index + 1;
    }
    if peak < 1 {
        peak = 1;
    }
    let raw_rms = maximum_window_rms(centered.as_slice(), MOMENTARY_WINDOW_SAMPLES);
    let rms: u64 = if raw_rms >= 1 {
        raw_rms
    } else {
        1
    };
    proof {
        assert(2_320 * peak <= 2_320 * 0x8000_0000) by (nonlinear_arith)
            requires
                peak <= 0x8000_0000,
        ;
        assert(8_231 * rms <= 8_231 * 0x8000_0000) by (nonlinear_arith)
            requires
                rms <= 0x8000_0000,
        ;
    }
    let (gain_numerator, gain_denominator) = if TARGET_MOMENTARY_RMS * peak <= PEAK_CEILING
        * rms {
        (TARGET_MOMENTARY_RMS, rms)
    } else {
        (PEAK_CEILING, peak)
    };
    let ghost gain = loudness_gain(centered@);
    assert(gain_numerator == gain.0 && gain_denominator == gain.1);
    let mut normalized: Vec<i16> = Vec::new();
    let mut index: usize = 0;
    while index < len
        invariant
            len == s.len(),
            index <= len,
            centered@ == centered_signal(s),
            gain == loudness_gain(centered@),
            gain_numerator == gain.0,
            gain_denominator == gain.1,
            1 <= gain_denominator <= 0x8000_0000,
            gain_numerator <= 8_231,
            normalized@.len() == index,
            forall|i: int|
                0 <= i < index ==> #[trigger] normalized@[i] == spec_normalize_loudness(s)[i],
        decreases len - index,
    {
        proof {
            let c = centered@[index as int];
            assert(-0x8000_0000 * 8_231 <= c * gain_numerator <= 0x8000_0000 * 8_231)
                by (nonlinear_arith)
                requires
                    -0x8000_0000 <= c <= 0x7fff_ffff,
                    0 <= gain_numerator <= 8_231,
            ;
        }
        let product: i128 = (centered[index] as i128) * (gain_numerator as i128);
        let half: i128 = (gain_denominator / 2) as i128;
        let rounded: i128 = if product >= 0 {
            (product + half) / (gain_denominator as i128)
        } else {
            (product - half) / (gain_denominator as i128)
        };
        let clamped: i128 = if rounded < -32_768 {
            -32_768
        } else if rounded > 32_767 {
            32_767
        } else {
            rounded
        };
        normalized.push(clamped as i16);
        index = index + 1;
    }
    assert(normalized@ == spec_normalize_loudness(s));
    normalized
}

} // verus!

verus! {

/// Largest sample magnitude for which normalization is shown to be defined.
pub open spec fn normalizable_amplitude() -> int {
    0x2_0000
}

pub open spec fn samples_bounded(samples: Seq<i32>, bound: int) -> bool {
    forall|i: int| 0 <= i < samples.len() ==> -bound <= #[trigger] samples[i] <= bound
}

proof fn lemma_taper_total_bounds(len: usize, count: int)
    requires
        0 <= count <= len,
    ensures
        0 <= taper_total(len, count) <= count * 32_768,
    decreases count,
{
    if count > 0 {
        lemma_taper_total_bounds(len, count - 1);
        lemma_taper_defined(len, count - 1);
    }
}

proof fn lemma_tapered_total_bounds(samples: Seq<i32>, count: int)
    requires
        0 <= count <= samples.len(),
        samples.len() <= usize::MAX,
        samples_bounded(samples, normalizable_amplitude()),
    ensures
        abs_int(tapered_total(samples, count)) <= count * 0x2_0000,
        32_768 * abs_int(tapered_total(samples, count)) <= 0x2_0000 * taper_total(
            samples.len() as usize,
            count,
        ),
    decreases count,
{
    if count > 0 {
        let len = samples.len() as usize;
        let i = count - 1;
        lemma_tapered_total_bounds(samples, i);
        lemma_taper_defined(len, i);
        let t = taper_at(len, i);
        let v = samples[i];
        lemma_mul_q15_attenuates(v, t);
        let m = tapered_at(samples, i);
        assert(abs_int(v as int) * t <= 0x2_0000 * t) by (nonlinear_arith)
            requires
                abs_int(v as int) <= 0x2_0000,
                0 <= t,
        ;
        assert(32_768 * abs_int(m as int) <= 0x2_0000 * t);
        assert(abs_int(m as int) <= 0x2_0000);
    }
}

proof fn lemma_dc_correction_bounded(samples: Seq<i32>)
    requires
        1 <= samples.len() <= usize::MAX,
        samples_bounded(samples, normalizable_amplitude()),
    ensures
        abs_int(dc_correction(samples)) <= 0x2_0000,
{
    let len = samples.len() as usize;
    let n = samples.len() as int;
    lemma_tapered_total_bounds(samples, n);
    lemma_taper_total_bounds(len, n);
    let total = tapered_total(samples, n);
    let taper_sum = taper_total(len, n);
    if taper_sum >= 1 {
        let a = abs_int(total) * 32_768;
        assert(a / taper_sum <= 0x2_0000) by (nonlinear_arith)
            requires
                a <= 0x2_0000 * taper_sum,
                taper_sum >= 1,
        ;
        if total >= 0 {
            assert(total * 32_768 == a);
        } else {
            assert(-(total * 32_768) == a);
        }
    } else {
        assert(total == 0);
    }
}

/// Signals of at most 2^20 samples bounded by 2^17 in magnitude normalize without overflow.
pub proof fn lemma_normalize_loudness_defined(samples: Seq<i32>)
    requires
        1 <= samples.len() <= 0x10_0000,
        samples_bounded(samples, normalizable_amplitude()),
    ensures
        normalize_loudness_defined(samples),
{
    let len = samples.len() as usize;
    let n = samples.len() as int;
    lemma_taper_total_bounds(len, n);
    assert forall|count: int| 0 <= count <= n implies i64::MIN <= #[trigger] tapered_total(
        samples,
        count,
    ) <= i64::MAX by {
        lemma_tapered_total_bounds(samples, count);
        assert(count * 0x2_0000 <= 0x10_0000 * 0x2_0000) by (nonlinear_arith)
            requires
                0 <= count <= 0x10_0000,
        ;
    }
    lemma_tapered_total_bounds(samples, n);
    assert(n * 0x2_0000 <= 0x10_0000 * 0x2_0000) by (nonlinear_arith)
        requires
            0 <= n <= 0x10_0000,
    ;
    lemma_dc_correction_bounded(samples);
    let correction = dc_correction(samples);
    assert forall|index: int| 0 <= index < n implies i32::MIN <= #[trigger] centered_at(
        samples,
        index,
    ) <= i32::MAX by {
        lemma_taper_defined(len, index);
        let t = taper_at(len, index);
        lemma_mul_q15_attenuates(samples[index], t);
        lemma_mul_q15_attenuates(correction as i32, t);
    }
}

} // verus!

verus! {

proof fn lemma_peak_abs_bounds(samples: Seq<i32>, count: int, index: int)
    requires
        0 <= index < count <= samples.len(),
    ensures
        abs_int(samples[index] as int) <= peak_abs(samples, count),
    decreases count,
{
    if index < count - 1 {
        lemma_peak_abs_bounds(samples, count - 1, index);
    }
}

proof fn lemma_scaled_sample_bounded(value: i32, numerator: int, denominator: int, ceiling: int)
    requires
        denominator >= 1,
        numerator >= 0,
        ceiling >= 0,
        abs_int(value as int) * numerator <= ceiling * denominator,
    ensures
        -ceiling <= scaled_sample(value, numerator, denominator) <= ceiling,
{
    let product = value * numerator;
    let half = denominator / 2;
    if product >= 0 {
        assert(product == abs_int(value as int) * numerator) by (nonlinear_arith)
            requires
                product == value * numerator,
                product >= 0,
                numerator >= 0,
        ;
        assert((product + half) / denominator <= ceiling) by (nonlinear_arith)
            requires
                product <= ceiling * denominator,
                0 <= half < denominator,
                denominator >= 1,
        ;
        assert((product + half) / denominator >= 0) by (nonlinear_arith)
            requires
                product >= 0,
                half >= 0,
                denominator >= 1,
        ;
    } else {
        let m = -product;
        assert(m == abs_int(value as int) * numerator) by (nonlinear_arith)
            requires
                product == value * numerator,
                product < 0,
                numerator >= 0,
                m == -product,
        ;
        assert((m + half) / denominator <= ceiling) by (nonlinear_arith)
            requires
                m <= ceiling * denominator,
                0 <= half < denominator,
                denominator >= 1,
        ;
        assert((m + half) / denominator >= 0) by (nonlinear_arith)
            requires
                m >= 0,
                half >= 0,
                denominator >= 1,
        ;
    }
}

/// Normalization never lets a sample exceed `PEAK_CEILING` in magnitude.
pub proof fn lemma_normalize_loudness_peak(samples: Seq<i32>, index: int)
    requires
        normalize_loudness_defined(samples),
        0 <= index < samples.len(),
    ensures
        -(PEAK_CEILING as int) <= spec_normalize_loudness(samples)[index] <= PEAK_CEILING as int,
{
    let c = centered_signal(samples);
    let n = samples.len() as int;
    let gain = loudness_gain(c);
    let raw_peak = peak_abs(c, n);
    let peak = if raw_peak >= 1 {
        raw_peak
    } else {
        1
    };
    let raw_rms = spec_maximum_window_rms(c, 4_800) as int;
    let rms = if raw_rms >= 1 {
        raw_rms
    } else {
        1
    };
    lemma_peak_abs_bounds(c, n, index);
    let a = abs_int(c[index] as int);
    assert(a <= peak);
    if 2_320 * peak <= 8_231 * rms {
        assert(a * 2_320 <= 8_231 * rms) by (nonlinear_arith)
            requires
                0 <= a <= peak,
                2_320 * peak <= 8_231 * rms,
        ;
        lemma_scaled_sample_bounded(c[index], 2_320, rms, 8_231);
    } else {
        assert(a * 8_231 <= 8_231 * peak) by (nonlinear_arith)
            requires
                0 <= a <= peak,
        ;
        lemma_scaled_sample_bounded(c[index], 8_231, peak, 8_231);
    }
}

proof fn lemma_mul_q15_by_zero(value: i32)
    ensures
        spec_mul_q15(value, 0) == 0,
{
    assert(value * 0 == 0) by (nonlinear_arith);
}

/// The normalized signal starts and ends with an exactly silent sample.
pub proof fn lemma_normalize_loudness_silent_edges(samples: Seq<i32>)
    requires
        normalize_loudness_defined(samples),
    ensures
        spec_normalize_loudness(samples)[0] == 0,
        spec_normalize_loudness(samples)[samples.len() - 1] == 0,
{
    let n = samples.len() as int;
    let len = samples.len() as usize;
    let c = centered_signal(samples);
    let gain = loudness_gain(c);
    lemma_ratio_q15_range(0, 576);
    lemma_ratio_q15_range(0, 1_536);
    lemma_smootherstep_range(0);
    lemma_taper_defined(len, 0);
    lemma_taper_defined(len, n - 1);
    lemma_smootherstep_range(spec_ratio_q15((len - 1) as usize, 1_536));
    lemma_smootherstep_range(spec_ratio_q15((len - 1) as usize, 576));
    assert(taper_at(len, 0) == 0);
    let last = (n - 1) as usize;
    assert((len - 1 - last) as usize == 0usize);
    assert(spec_ratio_q15(0, 1_536) == 0);
    assert(spec_smootherstep_q15(0) == 0);
    let rising = spec_smootherstep_q15(spec_ratio_q15(last, 576));
    lemma_mul_q15_by_zero(rising);
    assert(taper_at(len, n - 1) == 0);
    let k = dc_correction(samples) as i32;
    lemma_mul_q15_by_zero(samples[0]);
    lemma_mul_q15_by_zero(samples[n - 1]);
    lemma_mul_q15_by_zero(k);
    assert(tapered_at(samples, 0) == 0);
    assert(tapered_at(samples, n - 1) == 0);
    assert(centered_at(samples, 0) == 0);
    assert(centered_at(samples, n - 1) == 0);
    assert(c[0] == 0);
    assert(c[n - 1] == 0);
    assert(gain.1 >= 1);
    assert((0 + gain.1 / 2) / gain.1 == 0) by (nonlinear_arith)
        requires
            gain.1 >= 1,
    ;
}

} // verus!
