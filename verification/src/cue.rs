//! The three sound cues: deterministic integer synthesis into WAVE images.
use vstd::prelude::*;
use crate::q15::{
    lemma_glide_between, lemma_glide_ends_at_end, lemma_glide_starts_at_start,
    lemma_mul_q15_attenuates, lemma_padded_edge_envelope_defined,
    lemma_padded_edge_envelope_range,
    lemma_ratio_q15_defined, glide_millihz, mix, mix_defined, mul_q15, padded_edge_envelope,
    saturating_sub_usize, spec_glide_millihz, spec_mix_prefix, spec_mul_q15,
    spec_padded_edge_envelope,
};
use crate::sine::{lemma_sine_q15_range, phase_increment, samples_for_milliseconds, sine_q15, spec_sine_q15, Oscillator};
use crate::loudness::{
    lemma_normalize_loudness_defined, lemma_normalize_loudness_peak,
    lemma_normalize_loudness_silent_edges, normalizable_amplitude, normalize_loudness,
    normalize_loudness_defined, samples_bounded, spec_normalize_loudness, PEAK_CEILING,
};
use crate::wav::{encode_pcm_wav, spec_encode_pcm_wav, WAV_HEADER_BYTES};

verus! {

/// Samples in the countdown cue: 120 ms.
pub const COUNTDOWN_SAMPLES: usize = 5_760;

/// Samples in the Gaming Mode entry cue: 400 ms.
pub const ENTER_SAMPLES: usize = 19_200;

/// Samples in the Gaming Mode exit cue: 370 ms.
pub const LEAVE_SAMPLES: usize = 17_760;

/// Phase of a voice running at `numerator / denominator` times the glide frequency,
/// just before sample `index`.
pub open spec fn voice_phase(
    start: u32,
    end: u32,
    sample_count: usize,
    numerator: u32,
    denominator: u32,
    index: int,
) -> u32
    decreases index,
{
    if index <= 0 {
        0
    } else {
        let frequency = spec_glide_millihz(start, end, (index - 1) as usize, sample_count);
        vstd::wrapping::u32_specs::wrapping_add(
            voice_phase(start, end, sample_count, numerator, denominator, index - 1),
            phase_increment((frequency * numerator / (denominator as int)) as u32),
        )
    }
}

/// The voice samples (with their gains) of a tone at sample `index`.
/// Each voice is `(frequency numerator, frequency denominator, gain)`.
pub open spec fn tone_voices(
    start: u32,
    end: u32,
    sample_count: usize,
    voices: Seq<(u32, u32, i32)>,
    index: int,
) -> Seq<(i32, i32)> {
    Seq::new(
        voices.len(),
        |k: int|
            (
                spec_sine_q15(
                    voice_phase(start, end, sample_count, voices[k].0, voices[k].1, index),
                ),
                voices[k].2,
            ),
    )
}

/// Frequency glide `(start, end)` of each cue, in millihertz.
pub open spec fn cue_glide(cue: Cue) -> (u32, u32) {
    match cue {
        Cue::Countdown => (920_000, 700_000),
        Cue::GamingEnter => (240_000, 780_000),
        Cue::GamingLeave => (820_000, 250_000),
    }
}

/// Voices of each cue as `(frequency numerator, frequency denominator, gain)`.
pub open spec fn cue_voices(cue: Cue) -> Seq<(u32, u32, i32)> {
    match cue {
        Cue::Countdown => seq![(1u32, 1u32, 29_491i32), (1u32, 2u32, 3_277i32)],
        Cue::GamingEnter => seq![
            (1u32, 1u32, 24_904i32),
            (3u32, 2u32, 5_243i32),
            (1u32, 2u32, 2_621i32),
        ],
        Cue::GamingLeave => seq![
            (1u32, 1u32, 24_904i32),
            (3u32, 2u32, 4_915i32),
            (1u32, 2u32, 2_949i32),
        ],
    }
}

/// Envelope `(leading silence, attack, release, trailing silence)` of each cue, in samples.
pub open spec fn cue_envelope(cue: Cue) -> (usize, usize, usize, usize) {
    match cue {
        Cue::Countdown => (384, 1_344, 2_592, 672),
        Cue::GamingEnter => (480, 2_112, 4_320, 960),
        Cue::GamingLeave => (480, 2_016, 4_800, 1_056),
    }
}

pub open spec fn spec_sample_count(cue: Cue) -> usize {
    match cue {
        Cue::Countdown => COUNTDOWN_SAMPLES,
        Cue::GamingEnter => ENTER_SAMPLES,
        Cue::GamingLeave => LEAVE_SAMPLES,
    }
}

/// Synthesized (not yet normalized) sample `index` of `cue`.
pub open spec fn raw_sample(cue: Cue, index: int) -> i32 {
    spec_mul_q15(
        spec_mix_prefix(
            tone_voices(
                cue_glide(cue).0,
                cue_glide(cue).1,
                spec_sample_count(cue),
                cue_voices(cue),
                index,
            ),
            cue_voices(cue).len() as int,
        ) as i32,
        spec_padded_edge_envelope(
            index as usize,
            spec_sample_count(cue),
            cue_envelope(cue).0,
            cue_envelope(cue).1,
            cue_envelope(cue).2,
            cue_envelope(cue).3,
        ),
    )
}

pub open spec fn spec_synthesize(cue: Cue) -> Seq<i32> {
    Seq::new(spec_sample_count(cue) as nat, |index: int| raw_sample(cue, index))
}

/// A sound cue of the mode-switching experience.
#[derive(Clone, Copy, Debug, PartialEq, Eq, Structural)]
pub enum Cue {
    Countdown,
    GamingEnter,
    GamingLeave,
}

proof fn lemma_voice_bounded(sample: i32, gain: i32)
    requires
        -32_767 <= sample <= 32_767,
        0 <= gain <= 32_768,
    ensures
        -32_767 <= spec_mul_q15(sample, gain) <= 32_767,
{
    lemma_mul_q15_attenuates(sample, gain);
}

proof fn lemma_mix2_defined(voices: Seq<(i32, i32)>)
    requires
        voices.len() == 2,
        -32_767 <= spec_mul_q15(voices[0].0, voices[0].1) <= 32_767,
        -32_767 <= spec_mul_q15(voices[1].0, voices[1].1) <= 32_767,
    ensures
        mix_defined(voices),
        -65_534 <= spec_mix_prefix(voices, 2) <= 65_534,
{
    assert(spec_mix_prefix(voices, 0) == 0);
    assert(spec_mix_prefix(voices, 1) == spec_mul_q15(voices[0].0, voices[0].1));
    assert(spec_mix_prefix(voices, 2) == spec_mix_prefix(voices, 1) + spec_mul_q15(
        voices[1].0,
        voices[1].1,
    ));
}

proof fn lemma_mix3_defined(voices: Seq<(i32, i32)>)
    requires
        voices.len() == 3,
        -32_767 <= spec_mul_q15(voices[0].0, voices[0].1) <= 32_767,
        -32_767 <= spec_mul_q15(voices[1].0, voices[1].1) <= 32_767,
        -32_767 <= spec_mul_q15(voices[2].0, voices[2].1) <= 32_767,
    ensures
        mix_defined(voices),
        -98_301 <= spec_mix_prefix(voices, 3) <= 98_301,
{
    assert(spec_mix_prefix(voices, 0) == 0);
    assert(spec_mix_prefix(voices, 1) == spec_mul_q15(voices[0].0, voices[0].1));
    assert(spec_mix_prefix(voices, 2) == spec_mix_prefix(voices, 1) + spec_mul_q15(
        voices[1].0,
        voices[1].1,
    ));
    assert(spec_mix_prefix(voices, 3) == spec_mix_prefix(voices, 2) + spec_mul_q15(
        voices[2].0,
        voices[2].1,
    ));
}

fn synthesize_countdown() -> (r: Vec<i32>)
    ensures
        r@ == spec_synthesize(Cue::Countdown),
        forall|i: int| 0 <= i < r@.len() ==> -0x2_0000 <= #[trigger] r@[i] <= 0x2_0000,
{
    let mut carrier = Oscillator::default();
    let mut sub = Oscillator::default();
    let mut samples: Vec<i32> = Vec::new();
    let mut index: usize = 0;
    while index < COUNTDOWN_SAMPLES
        invariant
            index <= COUNTDOWN_SAMPLES,
            carrier.phase == voice_phase(920_000, 700_000, COUNTDOWN_SAMPLES, 1, 1, index as int),
            sub.phase == voice_phase(920_000, 700_000, COUNTDOWN_SAMPLES, 1, 2, index as int),
            samples@.len() == index,
            forall|i: int| 0 <= i < index ==> #[trigger] samples@[i] == raw_sample(Cue::Countdown, i),
            forall|i: int| 0 <= i < index ==> -0x2_0000 <= #[trigger] samples@[i] <= 0x2_0000,
        decreases COUNTDOWN_SAMPLES - index,
    {
        proof {
            lemma_ratio_q15_defined(index, saturating_sub_usize(COUNTDOWN_SAMPLES, 1));
            lemma_glide_between(920_000, 700_000, index, COUNTDOWN_SAMPLES);
        }
        let frequency = glide_millihz(920_000, 700_000, index, COUNTDOWN_SAMPLES);
        let phase = carrier.next_phase(frequency);
        let sub_voice = sub.next(frequency / 2);
        let carrier_voice = sine_q15(phase);
        let voices = [(carrier_voice, 29_491), (sub_voice, 3_277)];
        proof {
            lemma_voice_bounded(carrier_voice, 29_491);
            lemma_voice_bounded(sub_voice, 3_277);
            assert(voices@ =~= tone_voices(
                920_000,
                700_000,
                COUNTDOWN_SAMPLES,
                cue_voices(Cue::Countdown),
                index as int,
            ));
            lemma_mix2_defined(voices@);
        }
        let tonal = mix(&voices);
        let leading = samples_for_milliseconds(8);
        let attack = samples_for_milliseconds(28);
        let release = samples_for_milliseconds(54);
        let trailing = samples_for_milliseconds(14);
        proof {
            lemma_padded_edge_envelope_defined(index, COUNTDOWN_SAMPLES, leading, attack, release, trailing);
        }
        let envelope = padded_edge_envelope(index, COUNTDOWN_SAMPLES, leading, attack, release, trailing);
        proof {
            lemma_mul_q15_attenuates(tonal, envelope);
        }
        samples.push(mul_q15(tonal, envelope));
        index = index + 1;
    }
    assert(samples@ == spec_synthesize(Cue::Countdown));
    samples
}

fn synthesize_gaming_enter() -> (r: Vec<i32>)
    ensures
        r@ == spec_synthesize(Cue::GamingEnter),
        forall|i: int| 0 <= i < r@.len() ==> -0x2_0000 <= #[trigger] r@[i] <= 0x2_0000,
{
    let mut carrier = Oscillator::default();
    let mut fifth = Oscillator::default();
    let mut sub = Oscillator::default();
    let mut samples: Vec<i32> = Vec::new();
    let mut index: usize = 0;
    while index < ENTER_SAMPLES
        invariant
            index <= ENTER_SAMPLES,
            carrier.phase == voice_phase(240_000, 780_000, ENTER_SAMPLES, 1, 1, index as int),
            fifth.phase == voice_phase(240_000, 780_000, ENTER_SAMPLES, 3, 2, index as int),
            sub.phase == voice_phase(240_000, 780_000, ENTER_SAMPLES, 1, 2, index as int),
            samples@.len() == index,
            forall|i: int| 0 <= i < index ==> #[trigger] samples@[i] == raw_sample(Cue::GamingEnter, i),
            forall|i: int| 0 <= i < index ==> -0x2_0000 <= #[trigger] samples@[i] <= 0x2_0000,
        decreases ENTER_SAMPLES - index,
    {
        proof {
            lemma_ratio_q15_defined(index, saturating_sub_usize(ENTER_SAMPLES, 1));
            lemma_glide_between(240_000, 780_000, index, ENTER_SAMPLES);
        }
        let frequency = glide_millihz(240_000, 780_000, index, ENTER_SAMPLES);
        let phase = carrier.next_phase(frequency);
        let carrier_voice = sine_q15(phase);
        let fifth_voice = fifth.next(frequency * 3 / 2);
        let sub_voice = sub.next(frequency / 2);
        let voices = [(carrier_voice, 24_904), (fifth_voice, 5_243), (sub_voice, 2_621)];
        proof {
            lemma_voice_bounded(carrier_voice, 24_904);
            lemma_voice_bounded(fifth_voice, 5_243);
            lemma_voice_bounded(sub_voice, 2_621);
            assert(voices@ =~= tone_voices(
                240_000,
                780_000,
                ENTER_SAMPLES,
                cue_voices(Cue::GamingEnter),
                index as int,
            ));
            lemma_mix3_defined(voices@);
        }
        let tonal = mix(&voices);
        let leading = samples_for_milliseconds(10);
        let attack = samples_for_milliseconds(44);
        let release = samples_for_milliseconds(90);
        let trailing = samples_for_milliseconds(20);
        proof {
            lemma_padded_edge_envelope_defined(index, ENTER_SAMPLES, leading, attack, release, trailing);
        }
        let envelope = padded_edge_envelope(index, ENTER_SAMPLES, leading, attack, release, trailing);
        proof {
            lemma_mul_q15_attenuates(tonal, envelope);
        }
        samples.push(mul_q15(tonal, envelope));
        index = index + 1;
    }
    assert(samples@ == spec_synthesize(Cue::GamingEnter));
    samples
}

fn synthesize_gaming_leave() -> (r: Vec<i32>)
    ensures
        r@ == spec_synthesize(Cue::GamingLeave),
        forall|i: int| 0 <= i < r@.len() ==> -0x2_0000 <= #[trigger] r@[i] <= 0x2_0000,
{
    let mut carrier = Oscillator::default();
    let mut fifth = Oscillator::default();
    let mut sub = Oscillator::default();
    let mut samples: Vec<i32> = Vec::new();
    let mut index: usize = 0;
    while index < LEAVE_SAMPLES
        invariant
            index <= LEAVE_SAMPLES,
            carrier.phase == voice_phase(820_000, 250_000, LEAVE_SAMPLES, 1, 1, index as int),
            fifth.phase == voice_phase(820_000, 250_000, LEAVE_SAMPLES, 3, 2, index as int),
            sub.phase == voice_phase(820_000, 250_000, LEAVE_SAMPLES, 1, 2, index as int),
            samples@.len() == index,
            forall|i: int| 0 <= i < index ==> #[trigger] samples@[i] == raw_sample(Cue::GamingLeave, i),
            forall|i: int| 0 <= i < index ==> -0x2_0000 <= #[trigger] samples@[i] <= 0x2_0000,
        decreases LEAVE_SAMPLES - index,
    {
        proof {
            lemma_ratio_q15_defined(index, saturating_sub_usize(LEAVE_SAMPLES, 1));
            lemma_glide_between(820_000, 250_000, index, LEAVE_SAMPLES);
        }
        let frequency = glide_millihz(820_000, 250_000, index, LEAVE_SAMPLES);
        let phase = carrier.next_phase(frequency);
        let carrier_voice = sine_q15(phase);
        let fifth_voice = fifth.next(frequency * 3 / 2);
        let sub_voice = sub.next(frequency / 2);
        let voices = [(carrier_voice, 24_904), (fifth_voice, 4_915), (sub_voice, 2_949)];
        proof {
            lemma_voice_bounded(carrier_voice, 24_904);
            lemma_voice_bounded(fifth_voice, 4_915);
            lemma_voice_bounded(sub_voice, 2_949);
            assert(voices@ =~= tone_voices(
                820_000,
                250_000,
                LEAVE_SAMPLES,
                cue_voices(Cue::GamingLeave),
                index as int,
            ));
            lemma_mix3_defined(voices@);
        }
        let tonal = mix(&voices);
        let leading = samples_for_milliseconds(10);
        let attack = samples_for_milliseconds(42);
        let release = samples_for_milliseconds(100);
        let trailing = samples_for_milliseconds(22);
        proof {
            lemma_padded_edge_envelope_defined(index, LEAVE_SAMPLES, leading, attack, release, trailing);
        }
        let envelope = padded_edge_envelope(index, LEAVE_SAMPLES, leading, attack, release, trailing);
        proof {
            lemma_mul_q15_attenuates(tonal, envelope);
        }
        samples.push(mul_q15(tonal, envelope));
        index = index + 1;
    }
    assert(samples@ == spec_synthesize(Cue::GamingLeave));
    samples
}

} // verus!

verus! {

pub open spec fn spec_file_name(cue: Cue) -> Seq<char> {
    match cue {
        Cue::Countdown => "countdown.wav"@,
        Cue::GamingEnter => "gaming-enter.wav"@,
        Cue::GamingLeave => "gaming-leave.wav"@,
    }
}

/// The normalized 16-bit samples of `cue`.
pub open spec fn spec_pcm_samples(cue: Cue) -> Seq<i16> {
    spec_normalize_loudness(spec_synthesize(cue))
}

/// The complete WAVE image of `cue`.
pub open spec fn spec_wav_bytes(cue: Cue) -> Seq<u8> {
    spec_encode_pcm_wav(spec_pcm_samples(cue))
}

impl Cue {
    /// Every cue, in a fixed order.
    pub const ALL: [Cue; 3] = [Cue::Countdown, Cue::GamingEnter, Cue::GamingLeave];

    /// File name of the cue's runtime asset.
    pub fn file_name(self) -> (r: &'static str)
        ensures
            r@ == spec_file_name(self),
    {
        match self {
            Cue::Countdown => "countdown.wav",
            Cue::GamingEnter => "gaming-enter.wav",
            Cue::GamingLeave => "gaming-leave.wav",
        }
    }

    /// Number of samples in the cue.
    pub fn sample_count(self) -> (r: usize)
        ensures
            r == spec_sample_count(self),
    {
        match self {
            Cue::Countdown => COUNTDOWN_SAMPLES,
            Cue::GamingEnter => ENTER_SAMPLES,
            Cue::GamingLeave => LEAVE_SAMPLES,
        }
    }
}

/// The cue's synthesized signal, normalized to 16-bit PCM.
pub fn pcm_samples(cue: Cue) -> (r: Vec<i16>)
    ensures
        r@ == spec_pcm_samples(cue),
        r@.len() == spec_sample_count(cue),
{
    let raw = match cue {
        Cue::Countdown => synthesize_countdown(),
        Cue::GamingEnter => synthesize_gaming_enter(),
        Cue::GamingLeave => synthesize_gaming_leave(),
    };
    proof {
        assert(samples_bounded(raw@, normalizable_amplitude()));
        lemma_normalize_loudness_defined(raw@);
    }
    normalize_loudness(raw.as_slice())
}

/// The cue as a complete mono 16-bit 48 kHz PCM WAVE file.
pub fn wav_bytes(cue: Cue) -> (r: Vec<u8>)
    ensures
        r@ == spec_wav_bytes(cue),
        r@.len() == WAV_HEADER_BYTES + 2 * spec_sample_count(cue),
{
    let samples = pcm_samples(cue);
    encode_pcm_wav(samples.as_slice())
}

} // verus!

verus! {

/// Every synthesized sample stays within ±2^17.
pub proof fn lemma_raw_sample_bounded(cue: Cue, index: int)
    requires
        0 <= index < spec_sample_count(cue),
    ensures
        -0x2_0000 <= raw_sample(cue, index) <= 0x2_0000,
{
    let count = spec_sample_count(cue);
    let glide = cue_glide(cue);
    let envelope = cue_envelope(cue);
    let spec_voices = cue_voices(cue);
    let voices = tone_voices(glide.0, glide.1, count, spec_voices, index);
    assert forall|k: int| 0 <= k < voices.len() implies -32_767 <= #[trigger] spec_mul_q15(
        voices[k].0,
        voices[k].1,
    ) <= 32_767 by {
        lemma_sine_q15_range(
            voice_phase(glide.0, glide.1, count, spec_voices[k].0, spec_voices[k].1, index),
        );
        lemma_mul_q15_attenuates(voices[k].0, voices[k].1);
    }
    let tonal = if voices.len() == 2 {
        lemma_mix2_defined(voices);
        spec_mix_prefix(voices, 2)
    } else {
        lemma_mix3_defined(voices);
        spec_mix_prefix(voices, 3)
    };
    lemma_padded_edge_envelope_defined(
        index as usize,
        count,
        envelope.0,
        envelope.1,
        envelope.2,
        envelope.3,
    );
    lemma_padded_edge_envelope_range(
        index as usize,
        count,
        envelope.0,
        envelope.1,
        envelope.2,
        envelope.3,
    );
    lemma_mul_q15_attenuates(
        tonal as i32,
        spec_padded_edge_envelope(
            index as usize,
            count,
            envelope.0,
            envelope.1,
            envelope.2,
            envelope.3,
        ),
    );
}

/// Every cue's synthesized signal can be normalized.
pub proof fn lemma_synthesize_normalizable(cue: Cue)
    ensures
        normalize_loudness_defined(spec_synthesize(cue)),
{
    let raw = spec_synthesize(cue);
    assert forall|i: int| 0 <= i < raw.len() implies -normalizable_amplitude() <= #[trigger] raw[i]
        <= normalizable_amplitude() by {
        lemma_raw_sample_bounded(cue, i);
    }
    lemma_normalize_loudness_defined(raw);
}

/// Every cue begins and ends with an exactly silent sample.
pub proof fn lemma_cue_edges_silent(cue: Cue)
    ensures
        spec_pcm_samples(cue)[0] == 0,
        spec_pcm_samples(cue)[spec_sample_count(cue) - 1] == 0,
{
    lemma_synthesize_normalizable(cue);
    lemma_normalize_loudness_silent_edges(spec_synthesize(cue));
}

/// No cue sample exceeds `PEAK_CEILING` in magnitude.
pub proof fn lemma_cue_peak(cue: Cue, index: int)
    requires
        0 <= index < spec_sample_count(cue),
    ensures
        -(PEAK_CEILING as int) <= spec_pcm_samples(cue)[index] <= PEAK_CEILING as int,
{
    lemma_synthesize_normalizable(cue);
    lemma_normalize_loudness_peak(spec_synthesize(cue), index);
}

/// The carrier frequency of `cue` at sample `index`, in millihertz.
pub open spec fn carrier_frequency(cue: Cue, index: int) -> u32 {
    spec_glide_millihz(cue_glide(cue).0, cue_glide(cue).1, index as usize, spec_sample_count(cue))
}

/// The pitch of each cue moves in the direction of its mode change: entering
/// Gaming Mode rises from 240 Hz to 780 Hz, leaving it falls from 820 Hz to
/// 250 Hz, and the countdown tick falls from 920 Hz to 700 Hz, never leaving
/// the range between its endpoints.
pub proof fn lemma_cue_glide_directions(index: int)
    requires
        0 <= index,
    ensures
        carrier_frequency(Cue::GamingEnter, 0) == 240_000,
        carrier_frequency(Cue::GamingEnter, ENTER_SAMPLES - 1) == 780_000,
        index < ENTER_SAMPLES ==> 240_000 <= carrier_frequency(Cue::GamingEnter, index)
            <= 780_000,
        carrier_frequency(Cue::GamingLeave, 0) == 820_000,
        carrier_frequency(Cue::GamingLeave, LEAVE_SAMPLES - 1) == 250_000,
        index < LEAVE_SAMPLES ==> 250_000 <= carrier_frequency(Cue::GamingLeave, index)
            <= 820_000,
        carrier_frequency(Cue::Countdown, 0) == 920_000,
        carrier_frequency(Cue::Countdown, COUNTDOWN_SAMPLES - 1) == 700_000,
        index < COUNTDOWN_SAMPLES ==> 700_000 <= carrier_frequency(Cue::Countdown, index)
            <= 920_000,
{
    lemma_glide_starts_at_start(240_000, 780_000, ENTER_SAMPLES);
    lemma_glide_ends_at_end(240_000, 780_000, ENTER_SAMPLES);
    lemma_glide_between(240_000, 780_000, index as usize, ENTER_SAMPLES);
    lemma_glide_starts_at_start(820_000, 250_000, LEAVE_SAMPLES);
    lemma_glide_ends_at_end(820_000, 250_000, LEAVE_SAMPLES);
    lemma_glide_between(820_000, 250_000, index as usize, LEAVE_SAMPLES);
    lemma_glide_starts_at_start(920_000, 700_000, COUNTDOWN_SAMPLES);
    lemma_glide_ends_at_end(920_000, 700_000, COUNTDOWN_SAMPLES);
    lemma_glide_between(920_000, 700_000, index as usize, COUNTDOWN_SAMPLES);
}

} // verus!
