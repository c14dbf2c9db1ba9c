//! What the window and the tray menu say about the current mode.
use vstd::prelude::*;
use vstd::string::StringExecFns;
use crate::text::{decimal, push_decimal};

verus! {

/// The mode as shown to the user, with the countdown digit while Gaming Mode
/// is about to start.
#[derive(Clone, Copy, Debug, PartialEq, Eq, Structural)]
pub enum ModeVisualState {
    Desktop,
    Activating(u8),
    Gaming,
}

/// The tray icon variant for each mode; the activating one blinks.
#[derive(Clone, Copy, Debug, PartialEq, Eq, Structural)]
pub enum TrayIconState {
    Desktop,
    ActivatingBright,
    ActivatingDim,
    Gaming,
}

pub open spec fn spec_mode_status_description(state: ModeVisualState) -> Seq<char> {
    match state {
        ModeVisualState::Desktop => "Desktop mode is active"@,
        ModeVisualState::Activating(countdown) => "Gaming mode activates in "@ + decimal(
            countdown as nat,
        ),
        ModeVisualState::Gaming => "Gaming mode is active"@,
    }
}

/// The status line under the mode wordmark.
pub fn mode_status_description(state: ModeVisualState) -> (r: String)
    ensures
        r@ == spec_mode_status_description(state),
{
    match state {
        ModeVisualState::Desktop => String::from_str("Desktop mode is active"),
        ModeVisualState::Activating(countdown) => {
            let mut text = String::from_str("Gaming mode activates in ");
            push_decimal(&mut text, countdown as u64);
            text
        },
        ModeVisualState::Gaming => String::from_str("Gaming mode is active"),
    }
}

pub open spec fn spec_tray_mode_label(state: ModeVisualState) -> Seq<char> {
    match state {
        ModeVisualState::Desktop => "Enter Gaming Mode"@,
        ModeVisualState::Activating(countdown) => "Activating in "@ + decimal(countdown as nat)
            + "…"@,
        ModeVisualState::Gaming => "Restore Desktop Mode"@,
    }
}

/// The label of the tray's mode item and whether it can be clicked: it is
/// disabled while the countdown runs.
pub fn tray_mode_menu_presentation(state: ModeVisualState) -> (r: (String, bool))
    ensures
        r.0@ == spec_tray_mode_label(state),
        r.1 == !(state is Activating),
{
    match state {
        ModeVisualState::Desktop => (String::from_str("Enter Gaming Mode"), true),
        ModeVisualState::Activating(countdown) => {
            let mut text = String::from_str("Activating in ");
            push_decimal(&mut text, countdown as u64);
            text.append("…");
            (text, false)
        },
        ModeVisualState::Gaming => (String::from_str("Restore Desktop Mode"), true),
    }
}

} // verus!
