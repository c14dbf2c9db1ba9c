//! Q15 fixed-point helpers shared by the sound-cue synthesizer.
use vstd::prelude::*;

verus! {

/// One in Q15 fixed point.
pub const Q15_ONE: i32 = 32_768;

/// Division that rounds toward zero, as Rust's `/` does on signed integers.
pub open spec fn trunc_div(a: int, b: int) -> int
    recommends
        b != 0,
{
    let q = if a >= 0 { a } else { -a } / if b >= 0 { b } else { -b };
    if (a >= 0) == (b > 0) || a == 0 {
        q
    } else {
        -q
    }
}

pub open spec fn spec_mul_q15(left: i32, right: i32) -> i32 {
    trunc_div(left * right, 32_768) as i32
}

/// The product of two `i32` values always fits in an `i64`.
pub proof fn lemma_i32_product_bounds(left: i32, right: i32)
    ensures
        -0x4000_0000_0000_0000 <= left * right <= 0x4000_0000_0000_0000,
{
    assert(-0x4000_0000_0000_0000 <= left * right <= 0x4000_0000_0000_0000) by (nonlinear_arith)
        requires
            -0x8000_0000 <= left <= 0x7fff_ffff,
            -0x8000_0000 <= right <= 0x7fff_ffff,
    ;
}

/// Multiplies two Q15 values, rounding toward zero and keeping the low 32 bits.
pub fn mul_q15(left: i32, right: i32) -> (r: i32)
    ensures
        r == spec_mul_q15(left, right),
{
    proof {
        lemma_i32_product_bounds(left, right);
    }
    let quotient: i64 = ((left as i64) * (right as i64)) / 32_768i64;
    #[verifier::truncate] (quotient as i32)
}

} // verus!

verus! {

pub open spec fn min_usize(a: usize, b: usize) -> usize {
    if a <= b {
        a
    } else {
        b
    }
}

/// Inputs on which `ratio_q15` computes without overflowing `i64`
/// (denominators are taken as non-negative `i64` values).
pub open spec fn ratio_q15_defined(numerator: usize, denominator: usize) -> bool {
    denominator == 0 || (denominator <= i64::MAX && min_usize(numerator, denominator) * 32_768
        <= i64::MAX)
}

pub open spec fn spec_ratio_q15(numerator: usize, denominator: usize) -> i32 {
    if denominator == 0 {
        32_768
    } else {
        (min_usize(numerator, denominator) * 32_768 / (denominator as int)) as i32
    }
}

/// A Q15 ratio lies in `[0, Q15_ONE]` and is exact while `numerator <= denominator`.
pub proof fn lemma_ratio_q15_range(numerator: usize, denominator: usize)
    ensures
        0 <= spec_ratio_q15(numerator, denominator) <= 32_768,
        denominator > 0 ==> spec_ratio_q15(numerator, denominator) == min_usize(
            numerator,
            denominator,
        ) * 32_768 / (denominator as int),
        denominator > 0 && numerator >= denominator ==> spec_ratio_q15(numerator, denominator)
            == 32_768,
        denominator > 0 && numerator == 0 ==> spec_ratio_q15(numerator, denominator) == 0,
{
    let m = min_usize(numerator, denominator);
    if denominator > 0 {
        assert(m * 32_768 / (denominator as int) <= 32_768) by (nonlinear_arith)
            requires
                m <= denominator,
                denominator > 0,
        ;
        assert(0 <= m * 32_768 / (denominator as int)) by (nonlinear_arith)
            requires
                m >= 0,
                denominator > 0,
        ;
        if numerator >= denominator {
            assert(denominator * 32_768 / (denominator as int) == 32_768) by (nonlinear_arith)
                requires
                    denominator > 0,
            ;
        }
    }
}

/// `numerator / denominator` in Q15, with `numerator` capped at `denominator`
/// and an empty range counting as complete.
pub fn ratio_q15(numerator: usize, denominator: usize) -> (r: i32)
    requires
        ratio_q15_defined(numerator, denominator),
    ensures
        r == spec_ratio_q15(numerator, denominator),
        0 <= r <= Q15_ONE,
{
    proof {
        lemma_ratio_q15_range(numerator, denominator);
    }
    if denominator == 0 {
        return Q15_ONE;
    }
    let smaller = if numerator <= denominator {
        numerator
    } else {
        denominator
    };
    let scaled: i64 = (smaller as i64) * 32_768i64;
    let quotient: i64 = scaled / (denominator as i64);
    quotient as i32
}

pub open spec fn clamp_q15(value: i32) -> i32 {
    if value < 0 {
        0
    } else if value > 32_768 {
        32_768
    } else {
        value
    }
}

pub open spec fn spec_smootherstep_q15(value: i32) -> i32 {
    let v = clamp_q15(value);
    let square = spec_mul_q15(v, v);
    let cube = spec_mul_q15(square, v);
    spec_mul_q15(cube, (10 * 32_768 - 15 * v + 6 * square) as i32)
}

/// For non-negative products `mul_q15` is the floor of `left * right / 2^15`.
pub proof fn lemma_mul_q15_nonneg(left: i32, right: i32)
    requires
        0 <= left,
        0 <= right,
        left * right <= 0x7fff_ffff * 32_768,
    ensures
        spec_mul_q15(left, right) == left * right / 32_768,
        0 <= spec_mul_q15(left, right),
        spec_mul_q15(left, right) * 32_768 <= left * right,
        left * right < (spec_mul_q15(left, right) + 1) * 32_768,
{
    assert(0 <= left * right) by (nonlinear_arith)
        requires
            0 <= left,
            0 <= right,
    ;
}

proof fn lemma_smootherstep_polynomial(q: int, v: int)
    requires
        0 <= v <= q,
    ensures
        v * v * v * (10 * q * q - 15 * q * v + 6 * v * v) <= q * q * q * q * q,
{
    let d = q - v;
    assert(q * q * q * q * q - v * v * v * (10 * q * q - 15 * q * v + 6 * v * v) == d * d * d * (
    q * q + 3 * q * v + 6 * v * v)) by (nonlinear_arith)
        requires
            d == q - v,
    ;
    assert(0 <= d * d * d * (q * q + 3 * q * v + 6 * v * v)) by (nonlinear_arith)
        requires
            0 <= d,
            0 <= v,
            0 <= q,
    ;
}

/// Smootherstep maps every input into `[0, Q15_ONE]`, with both ends fixed.
pub proof fn lemma_smootherstep_range(value: i32)
    ensures
        0 <= spec_smootherstep_q15(value) <= 32_768,
        clamp_q15(value) == 0 ==> spec_smootherstep_q15(value) == 0,
        clamp_q15(value) == 32_768 ==> spec_smootherstep_q15(value) == 32_768,
{
    let q: int = 32_768;
    let v = clamp_q15(value);
    assert(v * v <= q * q) by (nonlinear_arith)
        requires
            0 <= v <= q,
    ;
    lemma_mul_q15_nonneg(v, v);
    let square = spec_mul_q15(v, v);
    assert(square <= v) by (nonlinear_arith)
        requires
            square * q <= v * v,
            0 <= v <= q,
            q > 0,
    ;
    assert(square * v <= q * q) by (nonlinear_arith)
        requires
            0 <= square <= v,
            0 <= v <= q,
    ;
    lemma_mul_q15_nonneg(square, v);
    let cube = spec_mul_q15(square, v);
    assert(cube <= square) by (nonlinear_arith)
        requires
            cube * q <= square * v,
            0 <= v <= q,
            0 <= square,
            q > 0,
    ;
    let poly: int = 10 * q - 15 * v + 6 * square;
    // `square` is within one of `v * v / q`, so the polynomial stays positive.
    assert(v * v < (square + 1) * q);
    assert(poly * q > (q - 6) * q) by (nonlinear_arith)
        requires
            poly == 10 * q - 15 * v + 6 * square,
            v * v < (square + 1) * q,
            0 <= v <= q,
            q == 32_768,
    ;
    assert(poly > 0) by (nonlinear_arith)
        requires
            poly * q > (q - 6) * q,
            q == 32_768,
    ;
    assert(poly <= 10 * q);
    assert((poly as i32) as int == poly);
    assert(q * q * cube <= v * v * v) by (nonlinear_arith)
        requires
            cube * q <= square * v,
            square * q <= v * v,
            0 <= v,
            0 <= cube,
            0 <= square,
            q > 0,
    ;
    assert(q * poly <= 10 * q * q - 15 * q * v + 6 * v * v) by (nonlinear_arith)
        requires
            poly == 10 * q - 15 * v + 6 * square,
            square * q <= v * v,
    ;
    lemma_smootherstep_polynomial(q, v as int);
    assert(q * q * q * (cube * poly) <= q * q * q * (q * q)) by (nonlinear_arith)
        requires
            q * q * cube <= v * v * v,
            q * poly <= 10 * q * q - 15 * q * v + 6 * v * v,
            v * v * v * (10 * q * q - 15 * q * v + 6 * v * v) <= q * q * q * q * q,
            0 <= cube,
            0 < poly,
            0 <= v,
            q > 0,
    ;
    assert(cube * poly <= q * q) by (nonlinear_arith)
        requires
            q * q * q * (cube * poly) <= q * q * q * (q * q),
            q > 0,
    ;
    lemma_mul_q15_nonneg(cube, poly as i32);
    assert(cube * poly / q <= q) by (nonlinear_arith)
        requires
            cube * poly <= q * q,
            0 <= cube * poly,
            q > 0,
    ;
    if v == 0 {
        assert(square == 0);
        assert(cube == 0);
    }
    if v == q {
        assert(square == q);
        assert(cube == q);
        assert(poly == q);
    }
}

/// The C2-continuous ease `6t^5 - 15t^4 + 10t^3` in Q15, input clamped to `[0, 1]`.
pub fn smootherstep_q15(value: i32) -> (r: i32)
    ensures
        r == spec_smootherstep_q15(value),
        0 <= r <= Q15_ONE,
{
    proof {
        lemma_smootherstep_range(value);
    }
    let value = if value < 0 {
        0
    } else if value > Q15_ONE {
        Q15_ONE
    } else {
        value
    };
    let square = mul_q15(value, value);
    let cube = mul_q15(square, value);
    proof {
        assert(value * value <= 32_768 * 32_768) by (nonlinear_arith)
            requires
                0 <= value <= 32_768,
        ;
        lemma_mul_q15_nonneg(value, value);
        assert(square <= 32_768) by (nonlinear_arith)
            requires
                square * 32_768 <= value * value,
                value * value <= 32_768 * 32_768,
        ;
    }
    mul_q15(cube, 10 * Q15_ONE - 15 * value + 6 * square)
}

} // verus!

verus! {

/// Every ratio whose denominator stays below 2^48 is computable.
pub proof fn lemma_ratio_q15_defined(numerator: usize, denominator: usize)
    requires
        denominator <= 0xffff_ffff_ffff,
    ensures
        ratio_q15_defined(numerator, denominator),
{
}

pub open spec fn saturating_sub_usize(a: usize, b: usize) -> usize {
    if a >= b {
        (a - b) as usize
    } else {
        0
    }
}

pub open spec fn spec_glide_millihz(start: u32, end: u32, index: usize, sample_count: usize) -> u32 {
    let progress = spec_smootherstep_q15(
        spec_ratio_q15(index, saturating_sub_usize(sample_count, 1)),
    );
    (start + trunc_div((end - start) * progress, 32_768)) as u32
}

proof fn lemma_scaled_delta_between(delta: int, progress: int)
    requires
        0 <= progress <= 32_768,
    ensures
        delta >= 0 ==> 0 <= trunc_div(delta * progress, 32_768) <= delta,
        delta < 0 ==> delta <= trunc_div(delta * progress, 32_768) <= 0,
{
    if delta >= 0 {
        assert(0 <= delta * progress <= delta * 32_768) by (nonlinear_arith)
            requires
                delta >= 0,
                0 <= progress <= 32_768,
        ;
        assert(delta * progress / 32_768 <= delta) by (nonlinear_arith)
            requires
                0 <= delta * progress <= delta * 32_768,
        ;
    } else {
        assert(0 <= (-delta) * progress <= (-delta) * 32_768) by (nonlinear_arith)
            requires
                delta < 0,
                0 <= progress <= 32_768,
        ;
        assert((-delta) * progress / 32_768 <= -delta) by (nonlinear_arith)
            requires
                0 <= (-delta) * progress <= (-delta) * 32_768,
        ;
        assert(-(delta * progress) == (-delta) * progress) by (nonlinear_arith);
    }
}

/// The frequency stays between the two glide endpoints.
pub proof fn lemma_glide_between(start: u32, end: u32, index: usize, sample_count: usize)
    ensures
        start <= end ==> start <= spec_glide_millihz(start, end, index, sample_count) <= end,
        end < start ==> end <= spec_glide_millihz(start, end, index, sample_count) <= start,
{
    let progress = spec_smootherstep_q15(
        spec_ratio_q15(index, saturating_sub_usize(sample_count, 1)),
    );
    lemma_smootherstep_range(spec_ratio_q15(index, saturating_sub_usize(sample_count, 1)));
    lemma_scaled_delta_between(end - start, progress as int);
}

/// A glide over at least two samples starts exactly at `start`.
pub proof fn lemma_glide_starts_at_start(start: u32, end: u32, sample_count: usize)
    requires
        sample_count >= 2,
    ensures
        spec_glide_millihz(start, end, 0, sample_count) == start,
{
    lemma_ratio_q15_range(0, saturating_sub_usize(sample_count, 1));
    lemma_smootherstep_range(0);
    assert(trunc_div((end - start) * 0, 32_768) == 0);
}

/// Every non-empty glide ends exactly at `end`.
pub proof fn lemma_glide_ends_at_end(start: u32, end: u32, sample_count: usize)
    requires
        sample_count >= 1,
    ensures
        spec_glide_millihz(start, end, (sample_count - 1) as usize, sample_count) == end,
{
    lemma_ratio_q15_range((sample_count - 1) as usize, saturating_sub_usize(sample_count, 1));
    lemma_smootherstep_range(32_768);
    let delta = end - start;
    assert(delta * 32_768 / 32_768 == delta) by (nonlinear_arith);
    assert((-delta) * 32_768 / 32_768 == -delta) by (nonlinear_arith);
    assert(-(delta * 32_768) == (-delta) * 32_768) by (nonlinear_arith);
}

/// Frequency (in millihertz) along a smootherstep glide from `start` to `end`.
pub fn glide_millihz(start: u32, end: u32, index: usize, sample_count: usize) -> (r: u32)
    requires
        ratio_q15_defined(index, saturating_sub_usize(sample_count, 1)),
    ensures
        r == spec_glide_millihz(start, end, index, sample_count),
        start <= end ==> start <= r <= end,
        end < start ==> end <= r <= start,
{
    proof {
        lemma_glide_between(start, end, index, sample_count);
    }
    let progress = smootherstep_q15(ratio_q15(index, sample_count.saturating_sub(1)));
    let delta: i64 = end as i64 - start as i64;
    proof {
        lemma_scaled_delta_between(delta as int, progress as int);
        assert(-0x1_0000_0000 * 32_768 <= delta * progress <= 0x1_0000_0000 * 32_768)
            by (nonlinear_arith)
            requires
                -0x1_0000_0000 <= delta <= 0x1_0000_0000,
                0 <= progress <= 32_768,
        ;
    }
    (start as i64 + delta * (progress as i64) / (Q15_ONE as i64)) as u32
}

pub open spec fn spec_edge_envelope(
    index: usize,
    sample_count: usize,
    attack: usize,
    release: usize,
) -> i32 {
    spec_mul_q15(
        spec_smootherstep_q15(spec_ratio_q15(index, attack)),
        spec_smootherstep_q15(spec_ratio_q15((sample_count - 1 - index) as usize, release)),
    )
}

pub open spec fn edge_envelope_defined(
    index: usize,
    sample_count: usize,
    attack: usize,
    release: usize,
) -> bool {
    &&& index < sample_count
    &&& ratio_q15_defined(index, attack)
    &&& ratio_q15_defined((sample_count - 1 - index) as usize, release)
}

/// The product of two values in `[0, Q15_ONE]` stays in `[0, Q15_ONE]`.
pub proof fn lemma_mul_q15_unit(left: i32, right: i32)
    requires
        0 <= left <= 32_768,
        0 <= right <= 32_768,
    ensures
        0 <= spec_mul_q15(left, right) <= 32_768,
        spec_mul_q15(left, right) <= left,
        spec_mul_q15(left, right) <= right,
{
    assert(0 <= left * right <= 32_768 * 32_768) by (nonlinear_arith)
        requires
            0 <= left <= 32_768,
            0 <= right <= 32_768,
    ;
    lemma_mul_q15_nonneg(left, right);
    assert(left * right / 32_768 <= left) by (nonlinear_arith)
        requires
            0 <= left,
            0 <= right <= 32_768,
    ;
    assert(left * right / 32_768 <= right) by (nonlinear_arith)
        requires
            0 <= left <= 32_768,
            0 <= right,
    ;
}

/// A fade-in over `attack` samples multiplied by a fade-out over the last
/// `release` samples.
pub fn edge_envelope(index: usize, sample_count: usize, attack: usize, release: usize) -> (r: i32)
    requires
        edge_envelope_defined(index, sample_count, attack, release),
    ensures
        r == spec_edge_envelope(index, sample_count, attack, release),
        0 <= r <= Q15_ONE,
{
    let attack = smootherstep_q15(ratio_q15(index, attack));
    let release = smootherstep_q15(ratio_q15(sample_count - 1 - index, release));
    proof {
        lemma_mul_q15_unit(attack, release);
    }
    mul_q15(attack, release)
}

pub open spec fn padded_active_count(
    sample_count: usize,
    leading_silence: usize,
    trailing_silence: usize,
) -> usize {
    saturating_sub_usize(sample_count, (leading_silence + trailing_silence) as usize)
}

pub open spec fn in_padded_window(
    index: usize,
    sample_count: usize,
    leading_silence: usize,
    trailing_silence: usize,
) -> bool {
    leading_silence <= index < leading_silence + padded_active_count(
        sample_count,
        leading_silence,
        trailing_silence,
    )
}

pub open spec fn padded_edge_envelope_defined(
    index: usize,
    sample_count: usize,
    leading_silence: usize,
    attack: usize,
    release: usize,
    trailing_silence: usize,
) -> bool {
    &&& leading_silence + trailing_silence <= usize::MAX
    &&& in_padded_window(index, sample_count, leading_silence, trailing_silence)
        ==> edge_envelope_defined(
        (index - leading_silence) as usize,
        padded_active_count(sample_count, leading_silence, trailing_silence),
        attack,
        release,
    )
}

pub open spec fn spec_padded_edge_envelope(
    index: usize,
    sample_count: usize,
    leading_silence: usize,
    attack: usize,
    release: usize,
    trailing_silence: usize,
) -> i32 {
    if in_padded_window(index, sample_count, leading_silence, trailing_silence) {
        spec_edge_envelope(
            (index - leading_silence) as usize,
            padded_active_count(sample_count, leading_silence, trailing_silence),
            attack,
            release,
        )
    } else {
        0
    }
}

/// An edge envelope framed by exact silence at both ends.
pub fn padded_edge_envelope(
    index: usize,
    sample_count: usize,
    leading_silence: usize,
    attack: usize,
    release: usize,
    trailing_silence: usize,
) -> (r: i32)
    requires
        padded_edge_envelope_defined(
            index,
            sample_count,
            leading_silence,
            attack,
            release,
            trailing_silence,
        ),
    ensures
        r == spec_padded_edge_envelope(
            index,
            sample_count,
            leading_silence,
            attack,
            release,
            trailing_silence,
        ),
        0 <= r <= Q15_ONE,
{
    let active_sample_count = sample_count.saturating_sub(leading_silence + trailing_silence);
    if index < leading_silence || index >= leading_silence + active_sample_count {
        return 0;
    }
    edge_envelope(index - leading_silence, active_sample_count, attack, release)
}

pub open spec fn spec_mix_prefix(voices: Seq<(i32, i32)>, count: int) -> int
    decreases count,
{
    if count <= 0 {
        0
    } else {
        spec_mix_prefix(voices, count - 1) + spec_mul_q15(voices[count - 1].0, voices[count - 1].1)
    }
}

/// Every running total of the mix fits in an `i32`.
pub open spec fn mix_defined(voices: Seq<(i32, i32)>) -> bool {
    forall|k: int|
        0 <= k <= voices.len() ==> i32::MIN <= #[trigger] spec_mix_prefix(voices, k) <= i32::MAX
}

/// Sums each voice scaled by its Q15 gain.
pub fn mix(voices: &[(i32, i32)]) -> (r: i32)
    requires
        mix_defined(voices@),
    ensures
        r == spec_mix_prefix(voices@, voices@.len() as int),
{
    let mut total: i32 = 0;
    let mut index: usize = 0;
    while index < voices.len()
        invariant
            index <= voices@.len(),
            mix_defined(voices@),
            total == spec_mix_prefix(voices@, index as int),
        decreases voices@.len() - index,
    {
        let (sample, gain) = voices[index];
        assert(i32::MIN <= spec_mix_prefix(voices@, index + 1) <= i32::MAX);
        total = total + mul_q15(sample, gain);
        index = index + 1;
    }
    total
}

} // verus!

verus! {

/// Envelopes whose lengths stay below 2^48 are always computable.
pub proof fn lemma_padded_edge_envelope_defined(
    index: usize,
    sample_count: usize,
    leading_silence: usize,
    attack: usize,
    release: usize,
    trailing_silence: usize,
)
    requires
        leading_silence + trailing_silence <= usize::MAX,
        attack <= 0xffff_ffff_ffff,
        release <= 0xffff_ffff_ffff,
    ensures
        padded_edge_envelope_defined(
            index,
            sample_count,
            leading_silence,
            attack,
            release,
            trailing_silence,
        ),
{
    let active = padded_active_count(sample_count, leading_silence, trailing_silence);
    if in_padded_window(index, sample_count, leading_silence, trailing_silence) {
        let inner = (index - leading_silence) as usize;
        assert(inner < active);
        lemma_ratio_q15_defined(inner, attack);
        lemma_ratio_q15_defined((active - 1 - inner) as usize, release);
        assert(edge_envelope_defined(inner, active, attack, release));
    }

}

/// Scaling by a gain in `[0, Q15_ONE]` never increases a magnitude.
pub proof fn lemma_mul_q15_attenuates(sample: i32, gain: i32)
    requires
        0 <= gain <= 32_768,
    ensures
        sample >= 0 ==> 0 <= spec_mul_q15(sample, gain) <= sample,
        sample < 0 ==> sample <= spec_mul_q15(sample, gain) <= 0,
        32_768 * (if spec_mul_q15(sample, gain) >= 0 {
            spec_mul_q15(sample, gain) as int
        } else {
            -spec_mul_q15(sample, gain)
        }) <= (if sample >= 0 {
            sample as int
        } else {
            -sample
        }) * gain,
{
    let p = sample * gain;
    if sample >= 0 {
        assert(0 <= p <= sample * 32_768) by (nonlinear_arith)
            requires
                p == sample * gain,
                sample >= 0,
                0 <= gain <= 32_768,
        ;
        assert(p / 32_768 <= sample) by (nonlinear_arith)
            requires
                0 <= p <= sample * 32_768,
        ;
        assert(32_768 * (p / 32_768) <= p) by (nonlinear_arith)
            requires
                p >= 0,
        ;
    } else {
        let m = -sample;
        assert(0 <= m * gain <= m * 32_768) by (nonlinear_arith)
            requires
                m > 0,
                0 <= gain <= 32_768,
        ;
        assert(-p == m * gain) by (nonlinear_arith)
            requires
                p == sample * gain,
                m == -sample,
        ;
        assert((m * gain) / 32_768 <= m) by (nonlinear_arith)
            requires
                0 <= m * gain <= m * 32_768,
        ;
        assert(32_768 * ((m * gain) / 32_768) <= m * gain) by (nonlinear_arith)
            requires
                m * gain >= 0,
        ;
    }
}

} // verus!

verus! {

/// A defined padded envelope lies in `[0, Q15_ONE]`.
pub proof fn lemma_padded_edge_envelope_range(
    index: usize,
    sample_count: usize,
    leading_silence: usize,
    attack: usize,
    release: usize,
    trailing_silence: usize,
)
    requires
        padded_edge_envelope_defined(
            index,
            sample_count,
            leading_silence,
            attack,
            release,
            trailing_silence,
        ),
    ensures
        0 <= spec_padded_edge_envelope(
            index,
            sample_count,
            leading_silence,
            attack,
            release,
            trailing_silence,
        ) <= 32_768,
{
    if in_padded_window(index, sample_count, leading_silence, trailing_silence) {
        let inner = (index - leading_silence) as usize;
        let active = padded_active_count(sample_count, leading_silence, trailing_silence);
        let rise = spec_ratio_q15(inner, attack);
        let fall = spec_ratio_q15((active - 1 - inner) as usize, release);
        lemma_smootherstep_range(rise);
        lemma_smootherstep_range(fall);
        lemma_mul_q15_unit(spec_smootherstep_q15(rise), spec_smootherstep_q15(fall));
    }
}

} // verus!
