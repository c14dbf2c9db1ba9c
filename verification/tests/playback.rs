use borderless_gaming::cue::{wav_bytes, Cue};
use borderless_gaming::playback::{
    transition_cue, warm_up_pcm, SoundCue, WARM_UP_MILLISECONDS, WARM_UP_PCM_BYTES,
};
use borderless_gaming::wav::WAV_HEADER_BYTES;

#[test]
fn mode_transition_cues_only_follow_real_state_changes() {
    assert_eq!(transition_cue(false, false), None);
    assert_eq!(transition_cue(false, true), Some(SoundCue::GamingEnter));
    assert_eq!(transition_cue(true, false), Some(SoundCue::GamingLeave));
    assert_eq!(transition_cue(true, true), None);
}

#[test]
fn warm_up_matches_the_click_animation_and_cue_pcm_format() {
    let warm_up = warm_up_pcm();
    assert_eq!(warm_up.len(), 48_000 * 2 * 160 / 1_000);
    assert!(warm_up.iter().all(|sample| *sample == 0));
    for cue in [
        SoundCue::Countdown,
        SoundCue::GamingEnter,
        SoundCue::GamingLeave,
    ] {
        assert_eq!(&cue.wav()[0..4], b"RIFF");
        assert_eq!(cue.pcm().len(), cue.wav().len() - WAV_HEADER_BYTES);
    }
}

#[test]
fn warm_up_constants_agree() {
    assert_eq!(WARM_UP_MILLISECONDS, 160);
    assert_eq!(WARM_UP_PCM_BYTES, 48_000 * 2 * WARM_UP_MILLISECONDS / 1_000);
}

#[test]
fn each_sound_plays_its_synthesized_cue() {
    assert_eq!(SoundCue::Countdown.wav(), wav_bytes(Cue::Countdown));
    assert_eq!(SoundCue::GamingEnter.wav(), wav_bytes(Cue::GamingEnter));
    assert_eq!(SoundCue::GamingLeave.wav(), wav_bytes(Cue::GamingLeave));
    let wav = SoundCue::GamingLeave.wav();
    assert_eq!(SoundCue::GamingLeave.pcm(), wav[WAV_HEADER_BYTES..].to_vec());
}
