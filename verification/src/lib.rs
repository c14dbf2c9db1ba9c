use vstd::prelude::*;

pub mod q15;
pub mod sine;
pub mod wav;
pub mod loudness;
pub mod cue;
pub mod text;
pub mod display;
pub mod actions;
pub mod picker;
pub mod mode;
pub mod profile;
pub mod mode_switch;
pub mod window;
pub mod playback;
pub mod login;
pub mod tasks;

verus! {
} // verus!
