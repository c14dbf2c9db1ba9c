use borderless_gaming::actions::{
    activate, activation_actions, auto_hide_enabled, restoration_actions, restore,
    toggled_auto_hide, with_auto_hide, ActionOutcome, ActionReport, DesktopAction, ToggleOptions,
    ABS_AUTOHIDE,
};

fn every_action() -> ToggleOptions {
    ToggleOptions {
        taskbar_auto_hide: true,
        desktop_icons: true,
        desktop_background: true,
        minimize_all_windows: true,
    }
}

#[test]
fn gaming_mode_runs_the_selected_actions_in_order() {
    assert_eq!(
        activation_actions(every_action()),
        [
            DesktopAction::SetTaskbarAutoHide(true),
            DesktopAction::SetDesktopIconsVisible(false),
            DesktopAction::ApplySolidBackground(true),
            DesktopAction::MinimizeAllWindows,
        ]
    );
    let only_icons = ToggleOptions { desktop_icons: true, ..ToggleOptions::default() };
    assert_eq!(activation_actions(only_icons), [DesktopAction::SetDesktopIconsVisible(false)]);
    assert!(activation_actions(ToggleOptions::default()).is_empty());
}

#[test]
fn desktop_mode_restores_the_taskbar_last() {
    assert_eq!(
        restoration_actions(every_action(), Some(false)),
        [
            DesktopAction::SetDesktopIconsVisible(true),
            DesktopAction::ApplySolidBackground(false),
            DesktopAction::SetTaskbarAutoHide(false),
        ]
    );
    assert_eq!(
        restoration_actions(every_action(), None),
        [
            DesktopAction::SetDesktopIconsVisible(true),
            DesktopAction::ApplySolidBackground(false),
        ]
    );
}

#[test]
fn activation_reports_each_failure_with_its_action() {
    let report = activate(
        every_action(),
        &[
            ActionOutcome::TaskbarAutoHide(false),
            ActionOutcome::Failed("Access is denied.".to_owned()),
            ActionOutcome::Completed,
            ActionOutcome::Failed("No shell.".to_owned()),
        ],
    );
    assert_eq!(
        report.errors,
        [
            "Taskbar auto-hide: Windows did not enable the requested state",
            "Desktop icons: Access is denied.",
            "Minimize windows: No shell.",
        ]
    );
    let clean = activate(
        every_action(),
        &[
            ActionOutcome::TaskbarAutoHide(true),
            ActionOutcome::Completed,
            ActionOutcome::Completed,
            ActionOutcome::Completed,
        ],
    );
    assert!(clean.errors.is_empty());
}

#[test]
fn restoration_reports_a_missing_taskbar_state() {
    let report = restore(
        every_action(),
        None,
        &[ActionOutcome::Completed, ActionOutcome::Failed("Wallpaper locked.".to_owned())],
    );
    assert_eq!(
        report.errors,
        [
            "Desktop background: Wallpaper locked.",
            "Taskbar auto-hide: The original state is unavailable and could not be restored",
        ]
    );
    let report = restore(
        every_action(),
        Some(true),
        &[ActionOutcome::Completed, ActionOutcome::Completed, ActionOutcome::TaskbarAutoHide(false)],
    );
    assert_eq!(
        report.errors,
        ["Taskbar auto-hide: Windows did not restore the original state"]
    );
    assert!(ActionReport::default().errors.is_empty());
}

#[test]
fn auto_hide_is_one_bit_of_the_app_bar_state() {
    assert_eq!(ABS_AUTOHIDE, 1);
    assert!(auto_hide_enabled(3));
    assert!(!auto_hide_enabled(2));
    assert_eq!(with_auto_hide(2, true), 3);
    assert_eq!(with_auto_hide(3, false), 2);
    assert_eq!(toggled_auto_hide(2), 3);
    assert_eq!(toggled_auto_hide(toggled_auto_hide(6)), 6);
}
