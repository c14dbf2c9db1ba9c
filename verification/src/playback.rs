//! The cues the desktop application plays around a mode change, and the
//! silence that opens the audio device before the first of them.
use vstd::prelude::*;
use crate::cue::{spec_wav_bytes, spec_sample_count, wav_bytes, Cue};
use crate::wav::WAV_HEADER_BYTES;

verus! {

/// Length of the silent buffer that wakes the audio device during the
/// button animation.
pub const WARM_UP_MILLISECONDS: usize = 160;

/// Bytes of 16-bit mono 48 kHz PCM in `WARM_UP_MILLISECONDS`.
pub const WARM_UP_PCM_BYTES: usize = 15_360;

/// A sound the application plays.
#[derive(Clone, Copy, Debug, PartialEq, Eq, Structural)]
pub enum SoundCue {
    Countdown,
    GamingEnter,
    GamingLeave,
}

pub open spec fn spec_cue(sound: SoundCue) -> Cue {
    match sound {
        SoundCue::Countdown => Cue::Countdown,
        SoundCue::GamingEnter => Cue::GamingEnter,
        SoundCue::GamingLeave => Cue::GamingLeave,
    }
}

impl SoundCue {
    /// The synthesized cue this sound plays.
    pub fn cue(self) -> (r: Cue)
        ensures
            r == spec_cue(self),
    {
        match self {
            SoundCue::Countdown => Cue::Countdown,
            SoundCue::GamingEnter => Cue::GamingEnter,
            SoundCue::GamingLeave => Cue::GamingLeave,
        }
    }

    /// The complete WAVE image of the sound.
    pub fn wav(self) -> (r: Vec<u8>)
        ensures
            r@ == spec_wav_bytes(spec_cue(self)),
            r@.len() == WAV_HEADER_BYTES + 2 * spec_sample_count(spec_cue(self)),
    {
        wav_bytes(self.cue())
    }

    /// The PCM payload of the WAVE image: everything after its header.
    pub fn pcm(self) -> (r: Vec<u8>)
        ensures
            r@ == spec_wav_bytes(spec_cue(self)).subrange(
                WAV_HEADER_BYTES as int,
                spec_wav_bytes(spec_cue(self)).len() as int,
            ),
    {
        let wav = self.wav();
        let mut pcm: Vec<u8> = Vec::new();
        let mut index: usize = WAV_HEADER_BYTES;
        while index < wav.len()
            invariant
                WAV_HEADER_BYTES <= index <= wav@.len(),
                pcm@ == wav@.subrange(WAV_HEADER_BYTES as int, index as int),
            decreases wav@.len() - index,
        {
            pcm.push(wav[index]);
            index = index + 1;
        }
        pcm
    }
}

/// The cue for a change of mode, if the mode really changed.
pub open spec fn spec_transition_cue(was_gaming: bool, is_gaming: bool) -> Option<SoundCue> {
    if !was_gaming && is_gaming {
        Some(SoundCue::GamingEnter)
    } else if was_gaming && !is_gaming {
        Some(SoundCue::GamingLeave)
    } else {
        None
    }
}

pub fn transition_cue(was_gaming: bool, is_gaming: bool) -> (r: Option<SoundCue>)
    ensures
        r == spec_transition_cue(was_gaming, is_gaming),
{
    match (was_gaming, is_gaming) {
        (false, true) => Some(SoundCue::GamingEnter),
        (true, false) => Some(SoundCue::GamingLeave),
        _ => None,
    }
}

/// The silent warm-up buffer: `WARM_UP_PCM_BYTES` zero bytes, which is
/// `WARM_UP_MILLISECONDS` of the cues' PCM format.
pub fn warm_up_pcm() -> (r: Vec<u8>)
    ensures
        r@.len() == WARM_UP_PCM_BYTES,
        r@.len() == 48_000 * 2 * WARM_UP_MILLISECONDS / 1_000,
        forall|i: int| 0 <= i < r@.len() ==> r@[i] == 0,
{
    let mut pcm: Vec<u8> = Vec::new();
    let mut index: usize = 0;
    while index < WARM_UP_PCM_BYTES
        invariant
            index <= WARM_UP_PCM_BYTES,
            pcm@.len() == index,
            forall|i: int| 0 <= i < pcm@.len() ==> pcm@[i] == 0,
        decreases WARM_UP_PCM_BYTES - index,
    {
        pcm.push(0);
        index = index + 1;
    }
    pcm
}

} // verus!
