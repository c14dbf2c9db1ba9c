use borderless_gaming::display::{DisplayError, Resolution};
use borderless_gaming::mode::{mode_status_description, tray_mode_menu_presentation, ModeVisualState};
use borderless_gaming::picker::{
    initialize_profile, replace_disallowed_profile, resolution_is_allowed, DisplayPicker,
    FeatureChoices, Settings,
};
use borderless_gaming::profile::{after_applying, after_reading_current, after_verifying, ProfileStep};
use borderless_gaming::display::ChangeOutcome;

#[test]
fn missing_profiles_default_to_the_current_resolution() {
    let mut profile = None;

    initialize_profile(&mut profile, Resolution::new(1920, 1080));

    assert_eq!(profile, Some(Resolution::new(1920, 1080)));
}

#[test]
fn saved_profiles_are_preserved_when_temporarily_unavailable() {
    let current = Resolution::new(1920, 1080);
    let saved = Resolution::new(2560, 1440);
    let mut profile = Some(saved);

    initialize_profile(&mut profile, current);

    assert_eq!(profile, Some(saved));
}

#[test]
fn resolutions_taller_than_native_are_rejected() {
    let native = Some(Resolution::new(2560, 1440));

    assert!(resolution_is_allowed(Resolution::new(3840, 1440), native));
    assert!(resolution_is_allowed(Resolution::new(1920, 1080), native));
    assert!(!resolution_is_allowed(Resolution::new(2560, 1600), native));
}

#[test]
fn disallowed_saved_profile_is_replaced_by_the_allowed_default() {
    let native = Some(Resolution::new(2560, 1440));
    let default = Resolution::new(1920, 1080);
    let mut profile = Some(Resolution::new(2560, 1600));

    replace_disallowed_profile(&mut profile, default, native);

    assert_eq!(profile, Some(default));
}

#[test]
fn tray_mode_menu_tracks_the_current_transition() {
    assert_eq!(
        tray_mode_menu_presentation(ModeVisualState::Desktop),
        ("Enter Gaming Mode".to_owned(), true)
    );
    assert_eq!(
        tray_mode_menu_presentation(ModeVisualState::Activating(2)),
        ("Activating in 2…".to_owned(), false)
    );
    assert_eq!(
        tray_mode_menu_presentation(ModeVisualState::Gaming),
        ("Restore Desktop Mode".to_owned(), true)
    );
}

#[test]
fn mode_status_names_the_mode_and_the_countdown() {
    assert_eq!(mode_status_description(ModeVisualState::Desktop), "Desktop mode is active");
    assert_eq!(
        mode_status_description(ModeVisualState::Activating(3)),
        "Gaming mode activates in 3"
    );
    assert_eq!(mode_status_description(ModeVisualState::Gaming), "Gaming mode is active");
}

#[test]
fn without_a_native_resolution_every_resolution_is_allowed() {
    assert!(resolution_is_allowed(Resolution::new(7680, 4320), None));
    let mut profile = Some(Resolution::new(7680, 4320));
    replace_disallowed_profile(&mut profile, Resolution::new(1920, 1080), None);
    assert_eq!(profile, Some(Resolution::new(7680, 4320)));
    let mut missing = None;
    replace_disallowed_profile(&mut missing, Resolution::new(1920, 1080), None);
    assert_eq!(missing, None);
}

#[test]
fn feature_choices_default_to_every_action_with_taskbar_auto_hide() {
    let choices = FeatureChoices::default();
    assert!(choices.desktop_icons && choices.desktop_background && choices.minimize_all_windows);
    assert!(choices.change_resolution);
    let options = FeatureChoices {
        desktop_icons: false,
        desktop_background: true,
        minimize_all_windows: false,
        change_resolution: false,
    }
    .toggle_options();
    assert!(options.taskbar_auto_hide);
    assert!(!options.desktop_icons);
    assert!(options.desktop_background);
    assert!(!options.minimize_all_windows);
}

#[test]
fn loading_lists_allowed_modes_and_settles_both_profiles() {
    let native = Resolution::new(2560, 1440);
    let mut settings = Settings {
        gaming_resolution: Some(Resolution::new(2560, 1600)),
        desktop_resolution: Some(Resolution::new(1024, 768)),
        ..Settings::default()
    };
    let mut picker = DisplayPicker::default();
    let modes = vec![
        Resolution::new(1920, 1080),
        Resolution::new(2560, 1600),
        Resolution::new(3840, 1440),
        Resolution::new(1920, 1080),
    ];

    let result = picker.load(&mut settings, Ok(modes), Ok(Resolution::new(1920, 1080)), Some(native));

    assert_eq!(result, Ok(()));
    assert_eq!(picker.native, Some(native));
    assert_eq!(
        picker.available_resolutions,
        [
            Resolution::new(3840, 1440),
            Resolution::new(2560, 1440),
            Resolution::new(1920, 1080),
        ]
    );
    // The refused gaming profile falls back to the current resolution; the
    // desktop profile is kept and listed although Windows does not offer it now.
    assert_eq!(settings.gaming_resolution, Some(Resolution::new(1920, 1080)));
    assert_eq!(settings.desktop_resolution, Some(Resolution::new(1024, 768)));
    assert_eq!(
        picker.resolutions,
        [
            Resolution::new(3840, 1440),
            Resolution::new(2560, 1440),
            Resolution::new(1920, 1080),
            Resolution::new(1024, 768),
        ]
    );
}

#[test]
fn loading_defaults_to_native_when_the_current_resolution_is_refused() {
    let native = Resolution::new(1920, 1080);
    let mut settings = Settings::default();
    let mut picker = DisplayPicker::default();

    let result = picker.load(
        &mut settings,
        Ok(vec![Resolution::new(1280, 720)]),
        Ok(Resolution::new(2560, 1440)),
        Some(native),
    );

    assert_eq!(result, Ok(()));
    assert_eq!(settings.desktop_resolution, Some(native));
    assert_eq!(settings.gaming_resolution, Some(native));
    assert_eq!(picker.resolutions, [native, Resolution::new(1280, 720)]);
}

#[test]
fn loading_errors_clear_the_picker_and_keep_the_settings() {
    let mut settings = Settings::default();
    let mut picker = DisplayPicker::default();
    picker.native = Some(Resolution::new(1920, 1080));
    picker.resolutions.push(Resolution::new(1920, 1080));

    let result = picker.load(&mut settings, Err(DisplayError::NoResolutions), Ok(Resolution::new(1920, 1080)), None);
    assert_eq!(result, Err(DisplayError::NoResolutions));
    assert!(picker.resolutions.is_empty());
    assert!(picker.available_resolutions.is_empty());
    assert_eq!(picker.native, None);
    assert_eq!(settings, Settings::default());

    let result = picker.load(
        &mut settings,
        Ok(vec![Resolution::new(1920, 1080)]),
        Err(DisplayError::CurrentResolutionUnavailable),
        None,
    );
    assert_eq!(result, Err(DisplayError::CurrentResolutionUnavailable));
    assert_eq!(settings, Settings::default());
}

#[test]
fn profile_change_reports_each_failure() {
    let target = Resolution::new(2560, 1440);

    assert!(matches!(after_reading_current(target, Ok(target)), ProfileStep::Done));
    assert!(matches!(
        after_reading_current(target, Ok(Resolution::new(1920, 1080))),
        ProfileStep::Apply
    ));
    match after_reading_current(target, Err(DisplayError::CurrentResolutionUnavailable)) {
        ProfileStep::Failed(message) => assert_eq!(
            message,
            "Could not read the current resolution: Windows could not read the primary display's current mode"
        ),
        other => panic!("unexpected step {other:?}"),
    }

    assert!(matches!(after_applying(target, Ok(ChangeOutcome::Applied)), ProfileStep::Verify));
    match after_applying(target, Ok(ChangeOutcome::RestartRequired)) {
        ProfileStep::Failed(message) => assert_eq!(
            message,
            "Windows accepted 2560 × 1440, but a restart is required before it can be used."
        ),
        other => panic!("unexpected step {other:?}"),
    }
    match after_applying(target, Err(DisplayError::NoResolutions)) {
        ProfileStep::Failed(message) => assert_eq!(
            message,
            "Could not apply 2560 × 1440: Windows reported no primary-display modes"
        ),
        other => panic!("unexpected step {other:?}"),
    }

    assert!(matches!(after_verifying(target, Ok(target)), ProfileStep::Done));
    match after_verifying(target, Ok(Resolution::new(1920, 1080))) {
        ProfileStep::Failed(message) => assert_eq!(
            message,
            "Windows kept the primary monitor at 1920 × 1080 instead of 2560 × 1440."
        ),
        other => panic!("unexpected step {other:?}"),
    }
    match after_verifying(target, Err(DisplayError::CurrentResolutionUnavailable)) {
        ProfileStep::Failed(message) => assert_eq!(
            message,
            "Could not verify 2560 × 1440: Windows could not read the primary display's current mode"
        ),
        other => panic!("unexpected step {other:?}"),
    }
}

#[test]
fn loading_twice_keeps_the_settled_profiles() {
    let native = Some(Resolution::new(2560, 1440));
    let modes = vec![Resolution::new(2560, 1440), Resolution::new(1920, 1080)];
    let mut settings = Settings {
        desktop_resolution: Some(Resolution::new(3840, 2160)),
        ..Settings::default()
    };
    let mut picker = DisplayPicker::default();

    assert_eq!(
        picker.load(&mut settings, Ok(modes.clone()), Ok(Resolution::new(1920, 1080)), native),
        Ok(())
    );
    let settled = settings;
    let listed = picker.resolutions.clone();
    assert_eq!(
        picker.load(&mut settings, Ok(modes), Ok(Resolution::new(1920, 1080)), native),
        Ok(())
    );
    assert_eq!(settings, settled);
    assert_eq!(picker.resolutions, listed);
    assert_eq!(settings.desktop_resolution, Some(Resolution::new(1920, 1080)));
}
