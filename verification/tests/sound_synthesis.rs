use borderless_gaming::cue::{pcm_samples, wav_bytes, Cue};
use borderless_gaming::loudness::{
    integer_sqrt, maximum_window_rms, MOMENTARY_WINDOW_SAMPLES, PEAK_CEILING, TARGET_MOMENTARY_RMS,
};
use borderless_gaming::q15::{
    edge_envelope, glide_millihz, mix, mul_q15, padded_edge_envelope, ratio_q15, smootherstep_q15,
    Q15_ONE,
};
use borderless_gaming::sine::{samples_for_milliseconds, sine_q15, Oscillator, SAMPLE_RATE};
use borderless_gaming::wav::encode_pcm_wav;

fn read_u16(bytes: &[u8], offset: usize) -> u16 {
    u16::from_le_bytes(bytes[offset..offset + 2].try_into().unwrap())
}

fn read_u32(bytes: &[u8], offset: usize) -> u32 {
    u32::from_le_bytes(bytes[offset..offset + 4].try_into().unwrap())
}

#[test]
fn generated_wavs_are_valid_mono_pcm_and_tiny() {
    let mut total_size = 0;

    for cue in Cue::ALL {
        let bytes = wav_bytes(cue);
        let sample_count = cue.sample_count();
        total_size += bytes.len();

        assert_eq!(&bytes[0..4], b"RIFF");
        assert_eq!(&bytes[8..16], b"WAVEfmt ");
        assert_eq!(read_u32(&bytes, 4), bytes.len() as u32 - 8);
        assert_eq!(read_u32(&bytes, 16), 16);
        assert_eq!(read_u16(&bytes, 20), 1);
        assert_eq!(read_u16(&bytes, 22), 1);
        assert_eq!(read_u32(&bytes, 24), SAMPLE_RATE);
        assert_eq!(read_u32(&bytes, 28), SAMPLE_RATE * 2);
        assert_eq!(read_u16(&bytes, 32), 2);
        assert_eq!(read_u16(&bytes, 34), 16);
        assert_eq!(&bytes[36..40], b"data");
        assert_eq!(read_u32(&bytes, 40), (sample_count * 2) as u32);
        assert_eq!(bytes.len(), 44 + sample_count * 2);
    }

    assert!(total_size <= 90 * 1_024);
}

#[test]
fn generated_signals_are_click_safe_and_healthy() {
    for cue in Cue::ALL {
        let samples = pcm_samples(cue);
        let samples_i32 = samples
            .iter()
            .map(|sample| i32::from(*sample))
            .collect::<Vec<_>>();
        let peak = samples
            .iter()
            .map(|sample| i32::from(*sample).unsigned_abs())
            .max()
            .unwrap();
        let momentary_rms = maximum_window_rms(&samples_i32, MOMENTARY_WINDOW_SAMPLES);
        let ten_millisecond_rms = maximum_window_rms(&samples_i32, SAMPLE_RATE as usize / 100);
        let sum = samples_i32
            .iter()
            .map(|sample| i64::from(*sample))
            .sum::<i64>();
        let maximum_jump = samples
            .windows(2)
            .map(|pair| (i32::from(pair[1]) - i32::from(pair[0])).unsigned_abs())
            .max()
            .unwrap();
        let mut second_differences = samples
            .windows(3)
            .map(|window| {
                (i32::from(window[2]) - 2 * i32::from(window[1]) + i32::from(window[0]))
                    .unsigned_abs()
            })
            .collect::<Vec<_>>();
        second_differences.sort_unstable();
        let percentile_999 = second_differences[second_differences.len() * 999 / 1_000];
        let maximum_second_difference = *second_differences.last().unwrap();
        let second_difference_rms = maximum_window_rms(
            &samples_i32
                .windows(3)
                .map(|window| window[2] - 2 * window[1] + window[0])
                .collect::<Vec<_>>(),
            samples_i32.len(),
        );
        let full_rms = maximum_window_rms(&samples_i32, samples_i32.len());

        assert_eq!(samples[0], 0);
        assert_eq!(samples[samples.len() - 1], 0);
        assert!(peak <= PEAK_CEILING as u32 + 1);
        assert!((1_800..=TARGET_MOMENTARY_RMS + 1).contains(&momentary_rms));
        assert!(ten_millisecond_rms <= 5_500);
        assert!(sum.unsigned_abs() * 2 <= samples.len() as u64);
        assert!(maximum_jump < 2_000);
        assert!(maximum_second_difference <= percentile_999 * 6 / 5 + 8);
        assert!(second_difference_rms * 25 <= full_rms);
        assert!(
            samples[..samples_for_milliseconds(5)]
                .iter()
                .all(|sample| *sample == 0)
        );
        assert!(
            samples[samples.len() - samples_for_milliseconds(8)..]
                .iter()
                .all(|sample| *sample == 0)
        );
    }
}

#[test]
fn synthesis_is_deterministic_and_each_cue_is_distinct() {
    for cue in Cue::ALL {
        assert_eq!(wav_bytes(cue), wav_bytes(cue));
    }
    assert_ne!(wav_bytes(Cue::Countdown), wav_bytes(Cue::GamingEnter));
    assert_ne!(wav_bytes(Cue::GamingEnter), wav_bytes(Cue::GamingLeave));
}

#[test]
fn glide_directions_match_the_mode_transitions() {
    assert_eq!(glide_millihz(240_000, 780_000, 0, 100), 240_000);
    assert_eq!(glide_millihz(240_000, 780_000, 99, 100), 780_000);
    assert_eq!(glide_millihz(820_000, 250_000, 0, 100), 820_000);
    assert_eq!(glide_millihz(820_000, 250_000, 99, 100), 250_000);
}

#[test]
fn oscillator_error_stays_below_minus_seventy_decibels() {
    let maximum_error = (0..4_096_u64)
        .map(|index| {
            let phase = ((index << 32) / 4_096) as u32;
            let angle = index as f64 * std::f64::consts::TAU / 4_096.0;
            let ideal = (angle.sin() * 32_767.0).round() as i32;
            (sine_q15(phase) - ideal).unsigned_abs()
        })
        .max()
        .unwrap();

    assert!(maximum_error <= 4, "maximum sine error was {maximum_error}");
}

#[test]
fn integer_square_root_is_exact_or_floored() {
    for value in [0, 1, 2, 3, 4, 8, 9, 15, 16, 5_840_000] {
        let root = integer_sqrt(value);
        assert!(root * root <= value);
        assert!((root + 1) * (root + 1) > value);
    }
}

#[test]
fn integer_square_root_of_large_values_is_floored() {
    assert_eq!(integer_sqrt(u128::MAX), u64::MAX as u128);
    assert_eq!(integer_sqrt(1 << 100), 1 << 50);
    assert_eq!(integer_sqrt((1 << 100) - 1), (1 << 50) - 1);
}

#[test]
fn root_mean_square_uses_the_loudest_window() {
    // One window of 4 samples at amplitude 3, preceded by silence.
    let samples = [0, 0, 0, 0, 3, -3, 3, -3];
    assert_eq!(maximum_window_rms(&samples, 4), 3);
    assert_eq!(maximum_window_rms(&samples, 8), 2);
    assert_eq!(maximum_window_rms(&[5], 100), 5);
}

#[test]
fn q15_products_and_ratios() {
    assert_eq!(mul_q15(Q15_ONE, 1_234), 1_234);
    assert_eq!(mul_q15(16_384, 16_384), 8_192);
    assert_eq!(mul_q15(-16_384, 16_384), -8_192);
    assert_eq!(ratio_q15(1, 2), 16_384);
    assert_eq!(ratio_q15(5, 4), Q15_ONE);
    assert_eq!(ratio_q15(0, 0), Q15_ONE);
    assert_eq!(smootherstep_q15(0), 0);
    assert_eq!(smootherstep_q15(Q15_ONE), Q15_ONE);
    assert_eq!(smootherstep_q15(16_384), 16_384);
}

#[test]
fn envelopes_are_silent_outside_the_padded_window() {
    assert_eq!(edge_envelope(0, 100, 10, 10), 0);
    assert_eq!(edge_envelope(50, 100, 10, 10), Q15_ONE);
    assert_eq!(padded_edge_envelope(0, 1_000, 10, 10, 20, 30), 0);
    assert_eq!(padded_edge_envelope(999, 1_000, 10, 10, 20, 30), 0);
    assert_eq!(padded_edge_envelope(500, 1_000, 10, 10, 20, 30), Q15_ONE);
}

#[test]
fn mixing_sums_scaled_voices() {
    assert_eq!(mix(&[(1_000, Q15_ONE), (2_000, 16_384)]), 2_000);
    assert_eq!(mix(&[]), 0);
}

#[test]
fn oscillator_advances_its_phase_with_the_frequency() {
    let mut oscillator = Oscillator::default();
    assert_eq!(oscillator.phase, 0);
    assert_eq!(oscillator.next(0), 0);
    let first = oscillator.next(12_000_000);
    assert_eq!(first, sine_q15(0));
    assert_eq!(oscillator.phase, 1 << 30);
}

#[test]
fn encoded_wave_starts_with_its_header() {
    let bytes = encode_pcm_wav(&[1, -1]);
    assert_eq!(bytes.len(), 48);
    assert_eq!(&bytes[44..], &[1, 0, 0xff, 0xff]);
    assert_eq!(read_u32(&bytes, 40), 4);
}
