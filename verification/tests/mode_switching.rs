use borderless_gaming::display::Resolution;
use borderless_gaming::mode_switch::{finish_switch, switch_choices, SwitchReport};
use borderless_gaming::picker::{FeatureChoices, Settings};

fn choices(desktop_icons: bool) -> FeatureChoices {
    FeatureChoices {
        desktop_icons,
        desktop_background: true,
        minimize_all_windows: false,
        change_resolution: true,
    }
}

fn settings() -> Settings {
    Settings {
        features: choices(true),
        desktop_resolution: Some(Resolution::new(3440, 1440)),
        gaming_resolution: Some(Resolution::new(2560, 1440)),
        ..Settings::default()
    }
}

#[test]
fn entering_gaming_mode_records_the_choices_and_applies_the_gaming_profile() {
    let mut settings = settings();
    let picked = switch_choices(false, &mut settings);
    assert_eq!(picked, choices(true));
    assert_eq!(settings.active_mode_features, Some(choices(true)));

    let report = SwitchReport { gaming_mode_enabled: true, optional_actions_failed: false, errors: vec![] };
    let outcome = finish_switch(false, picked, report, &mut settings);
    assert!(outcome.errors.is_empty());
    assert!(!outcome.restore_actions_failed);
    assert_eq!(outcome.apply_resolution, Some(Resolution::new(2560, 1440)));
    assert_eq!(settings.active_mode_features, Some(choices(true)));
}

#[test]
fn leaving_gaming_mode_undoes_the_recorded_choices() {
    let mut settings = Settings { active_mode_features: Some(choices(false)), ..settings() };
    let picked = switch_choices(true, &mut settings);
    assert_eq!(picked, choices(false));

    let report = SwitchReport {
        gaming_mode_enabled: false,
        optional_actions_failed: true,
        errors: vec!["Desktop icons: denied".to_owned()],
    };
    let outcome = finish_switch(true, picked, report, &mut settings);
    assert_eq!(outcome.errors, ["Desktop icons: denied"]);
    assert!(!outcome.restore_actions_failed);
    assert_eq!(outcome.apply_resolution, Some(Resolution::new(3440, 1440)));
    assert_eq!(settings.active_mode_features, None);
}

#[test]
fn a_failed_restoration_keeps_gaming_mode_and_asks_to_retry() {
    let mut settings = Settings { active_mode_features: None, ..settings() };
    let picked = switch_choices(true, &mut settings);
    assert_eq!(picked, choices(true));

    let report = SwitchReport {
        gaming_mode_enabled: true,
        optional_actions_failed: true,
        errors: vec!["Desktop background: locked".to_owned()],
    };
    let outcome = finish_switch(true, picked, report, &mut settings);
    assert_eq!(
        outcome.errors,
        [
            "Desktop background: locked",
            "Uncheck a failing action if Windows cannot restore it, then retry.",
        ]
    );
    assert!(outcome.restore_actions_failed);
    assert_eq!(outcome.apply_resolution, None);
    assert_eq!(settings.active_mode_features, Some(choices(true)));
}

#[test]
fn an_unchanged_mode_without_errors_says_so() {
    let mut settings = settings();
    let picked = switch_choices(false, &mut settings);
    let report = SwitchReport { gaming_mode_enabled: false, optional_actions_failed: false, errors: vec![] };
    let outcome = finish_switch(false, picked, report, &mut settings);
    assert_eq!(outcome.errors, ["Windows did not change the main mode."]);
    assert_eq!(outcome.apply_resolution, None);
    assert_eq!(settings.active_mode_features, None);
}

#[test]
fn without_change_resolution_the_display_keeps_its_resolution() {
    let keep = FeatureChoices { change_resolution: false, ..choices(true) };
    let mut settings = Settings { features: keep, ..settings() };
    let picked = switch_choices(false, &mut settings);
    let report = SwitchReport { gaming_mode_enabled: true, optional_actions_failed: false, errors: vec![] };
    let outcome = finish_switch(false, picked, report, &mut settings);
    assert!(outcome.errors.is_empty());
    assert_eq!(outcome.apply_resolution, None);
    // The chosen Gaming profile is still remembered.
    assert_eq!(settings.gaming_resolution, Some(Resolution::new(2560, 1440)));

    let picked = switch_choices(true, &mut settings);
    let report = SwitchReport { gaming_mode_enabled: false, optional_actions_failed: false, errors: vec![] };
    let outcome = finish_switch(true, picked, report, &mut settings);
    assert_eq!(outcome.apply_resolution, None);
}
