//! The decisions of the application window and its tray icon: closing to
//! the tray, the tray's commands, and picking a resolution profile.
use vstd::prelude::*;
use vstd::string::StringExecFns;
use crate::display::{resolution_label, Resolution};
use crate::picker::Settings;

verus! {

/// What the window does next.
#[derive(Clone, Copy, Debug, PartialEq, Eq, Structural)]
pub enum CloseAction {
    /// Let the application exit.
    Exit,
    /// Hide the window; the application keeps running in the tray.
    HideToTray,
    /// Explain, once, that closing only hides the window.
    ShowNotice,
    Nothing,
}

/// A request to close the window. Only a quit from the tray exits; otherwise
/// the close is cancelled and the window hides in the tray, after a one-time
/// notice.
pub fn on_close_request(settings: &Settings, notice_open: &mut bool, quitting: bool) -> (r:
    CloseAction)
    ensures
        quitting ==> r == CloseAction::Exit && *final(notice_open) == *old(notice_open),
        !quitting && settings.tray_close_notice_acknowledged ==> r == CloseAction::HideToTray
            && *final(notice_open) == *old(notice_open),
        !quitting && !settings.tray_close_notice_acknowledged ==> r == CloseAction::ShowNotice
            && *final(notice_open),
{
    if quitting {
        CloseAction::Exit
    } else if settings.tray_close_notice_acknowledged {
        CloseAction::HideToTray
    } else {
        *notice_open = true;
        CloseAction::ShowNotice
    }
}

/// The user confirms the close notice: it is not shown again, and the window
/// hides in the tray.
pub fn accept_close_notice(settings: &mut Settings, notice_open: &mut bool) -> (r: CloseAction)
    ensures
        *old(notice_open) ==> {
            &&& final(settings).tray_close_notice_acknowledged
            &&& !*final(notice_open)
            &&& r == CloseAction::HideToTray
            &&& final(settings).features == old(settings).features
            &&& final(settings).active_mode_features == old(settings).active_mode_features
            &&& final(settings).desktop_resolution == old(settings).desktop_resolution
            &&& final(settings).gaming_resolution == old(settings).gaming_resolution
        },
        !*old(notice_open) ==> *final(settings) == *old(settings) && *final(notice_open)
            == *old(notice_open) && r == CloseAction::Nothing,
{
    if *notice_open {
        settings.tray_close_notice_acknowledged = true;
        *notice_open = false;
        CloseAction::HideToTray
    } else {
        CloseAction::Nothing
    }
}

/// What the tray icon reports.
#[derive(Clone, Copy, Debug, PartialEq, Eq, Structural)]
pub enum TrayEvent {
    /// The menu's "Open" item.
    MenuOpen,
    /// The menu's mode item.
    MenuMode,
    /// The menu's "Quit" item.
    MenuQuit,
    /// A left double-click on the icon.
    LeftDoubleClick,
    /// Any other click or menu event.
    Other,
}

/// What the tray asks the application to do.
#[derive(Clone, Copy, Debug, PartialEq, Eq, Structural)]
pub enum TrayCommand {
    Open,
    ToggleMode,
    Quit,
}

/// The command of a tray event: the menu items do what they say, and a left
/// double-click switches modes.
pub fn tray_command(event: TrayEvent) -> (r: Option<TrayCommand>)
    ensures
        event == TrayEvent::MenuOpen ==> r == Some(TrayCommand::Open),
        event == TrayEvent::MenuMode ==> r == Some(TrayCommand::ToggleMode),
        event == TrayEvent::MenuQuit ==> r == Some(TrayCommand::Quit),
        event == TrayEvent::LeftDoubleClick ==> r == Some(TrayCommand::ToggleMode),
        event == TrayEvent::Other ==> r is None,
{
    match event {
        TrayEvent::MenuOpen => Some(TrayCommand::Open),
        TrayEvent::MenuMode => Some(TrayCommand::ToggleMode),
        TrayEvent::MenuQuit => Some(TrayCommand::Quit),
        TrayEvent::LeftDoubleClick => Some(TrayCommand::ToggleMode),
        TrayEvent::Other => None,
    }
}

/// Picks a resolution profile. The choice is only stored: profiles apply
/// when modes switch. A changed profile clears the shown errors and the
/// resolution change awaiting a retry.
pub fn choose_profile(
    settings: &mut Settings,
    errors: &mut Vec<String>,
    pending: &mut Option<(Resolution, String)>,
    gaming: bool,
    choice: Resolution,
)
    ensures
        gaming ==> final(settings).gaming_resolution == Some(choice)
            && final(settings).desktop_resolution == old(settings).desktop_resolution,
        !gaming ==> final(settings).desktop_resolution == Some(choice)
            && final(settings).gaming_resolution == old(settings).gaming_resolution,
        final(settings).features == old(settings).features,
        final(settings).active_mode_features == old(settings).active_mode_features,
        final(settings).tray_close_notice_acknowledged == old(settings).tray_close_notice_acknowledged,
        ({
            let previous = if gaming {
                old(settings).gaming_resolution
            } else {
                old(settings).desktop_resolution
            };
            if previous != Some(choice) {
                final(errors)@.len() == 0 && *final(pending) is None
            } else {
                final(errors)@ == old(errors)@ && *final(pending) == *old(pending)
            }
        }),
{
    let previous = if gaming {
        settings.gaming_resolution
    } else {
        settings.desktop_resolution
    };
    let changed = match previous {
        Some(resolution) => resolution != choice,
        None => true,
    };
    if gaming {
        settings.gaming_resolution = Some(choice);
    } else {
        settings.desktop_resolution = Some(choice);
    }
    if changed {
        errors.clear();
        *pending = None;
    }
}

/// How a resolution is listed in a profile: marked native or unavailable.
pub open spec fn spec_profile_row_label(resolution: Resolution, available: bool, native: Option<
    Resolution,
>) -> Seq<char> {
    if native == Some(resolution) {
        resolution_label(resolution) + " (native)"@
    } else if !available {
        resolution_label(resolution) + " (unavailable)"@
    } else {
        resolution_label(resolution)
    }
}

/// The label of a profile row and whether it can be picked: only resolutions
/// the display offers now can be.
pub fn profile_row(resolution: Resolution, available_resolutions: &Vec<Resolution>, native: Option<
    Resolution,
>) -> (r: (String, bool))
    ensures
        r.1 == available_resolutions@.contains(resolution),
        r.0@ == spec_profile_row_label(resolution, r.1, native),
{
    let mut available = false;
    let mut index: usize = 0;
    while index < available_resolutions.len()
        invariant
            index <= available_resolutions@.len(),
            available <==> exists|k: int|
                0 <= k < index && available_resolutions@[k] == resolution,
        decreases available_resolutions@.len() - index,
    {
        if available_resolutions[index] == resolution {
            available = true;
        }
        index = index + 1;
    }
    let mut label = resolution.to_string();
    let is_native = match native {
        Some(native) => native == resolution,
        None => false,
    };
    if is_native {
        label.append(" (native)");
    } else if !available {
        label.append(" (unavailable)");
    }
    (label, available)
}

} // verus!
