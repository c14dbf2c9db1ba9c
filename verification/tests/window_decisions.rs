use borderless_gaming::display::Resolution;
use borderless_gaming::mode_switch::feature_choices_view;
use borderless_gaming::picker::{FeatureChoices, Settings};
use borderless_gaming::window::{
    accept_close_notice, choose_profile, on_close_request, profile_row, tray_command, CloseAction,
    TrayCommand, TrayEvent,
};

#[test]
fn closing_hides_in_the_tray_after_a_one_time_notice() {
    let mut settings = Settings::default();
    let mut notice_open = false;

    assert_eq!(on_close_request(&settings, &mut notice_open, false), CloseAction::ShowNotice);
    assert!(notice_open);
    assert_eq!(accept_close_notice(&mut settings, &mut notice_open), CloseAction::HideToTray);
    assert!(settings.tray_close_notice_acknowledged);
    assert!(!notice_open);

    assert_eq!(on_close_request(&settings, &mut notice_open, false), CloseAction::HideToTray);
    assert!(!notice_open);
    assert_eq!(accept_close_notice(&mut settings, &mut notice_open), CloseAction::Nothing);
}

#[test]
fn quitting_from_the_tray_exits() {
    let settings = Settings::default();
    let mut notice_open = false;
    assert_eq!(on_close_request(&settings, &mut notice_open, true), CloseAction::Exit);
    assert!(!notice_open);
}

#[test]
fn tray_events_map_to_commands() {
    assert_eq!(tray_command(TrayEvent::MenuOpen), Some(TrayCommand::Open));
    assert_eq!(tray_command(TrayEvent::MenuMode), Some(TrayCommand::ToggleMode));
    assert_eq!(tray_command(TrayEvent::MenuQuit), Some(TrayCommand::Quit));
    assert_eq!(tray_command(TrayEvent::LeftDoubleClick), Some(TrayCommand::ToggleMode));
    assert_eq!(tray_command(TrayEvent::Other), None);
}

#[test]
fn choosing_a_profile_stores_it_and_clears_stale_errors() {
    let mut settings = Settings {
        desktop_resolution: Some(Resolution::new(3440, 1440)),
        gaming_resolution: Some(Resolution::new(2560, 1440)),
        ..Settings::default()
    };
    let mut errors = vec!["old".to_owned()];
    let mut pending = Some((Resolution::new(2560, 1440), "retry".to_owned()));

    choose_profile(&mut settings, &mut errors, &mut pending, true, Resolution::new(2560, 1440));
    assert_eq!(errors, ["old"]);
    assert!(pending.is_some());

    choose_profile(&mut settings, &mut errors, &mut pending, true, Resolution::new(1920, 1080));
    assert_eq!(settings.gaming_resolution, Some(Resolution::new(1920, 1080)));
    assert_eq!(settings.desktop_resolution, Some(Resolution::new(3440, 1440)));
    assert!(errors.is_empty());
    assert!(pending.is_none());

    let mut errors = vec!["again".to_owned()];
    choose_profile(&mut settings, &mut errors, &mut pending, false, Resolution::new(2560, 1080));
    assert_eq!(settings.desktop_resolution, Some(Resolution::new(2560, 1080)));
    assert!(errors.is_empty());
}

#[test]
fn profile_rows_mark_native_and_unavailable_resolutions() {
    let available = vec![Resolution::new(2560, 1440), Resolution::new(1920, 1080)];
    let native = Some(Resolution::new(2560, 1440));
    assert_eq!(
        profile_row(Resolution::new(2560, 1440), &available, native),
        ("2560 × 1440 (native)".to_owned(), true)
    );
    assert_eq!(
        profile_row(Resolution::new(1920, 1080), &available, native),
        ("1920 × 1080".to_owned(), true)
    );
    assert_eq!(
        profile_row(Resolution::new(1024, 768), &available, native),
        ("1024 × 768 (unavailable)".to_owned(), false)
    );
}

#[test]
fn choices_open_up_after_a_failed_restoration() {
    let edited = FeatureChoices { desktop_icons: false, ..FeatureChoices::default() };
    let mut settings = Settings {
        features: edited,
        active_mode_features: Some(FeatureChoices::default()),
        ..Settings::default()
    };

    let view = feature_choices_view(&mut settings, true, false);
    assert!(!view.editable);
    assert_eq!(view.retry_hint, None);
    assert_eq!(settings.active_mode_features, Some(FeatureChoices::default()));

    let view = feature_choices_view(&mut settings, true, true);
    assert!(view.editable);
    assert_eq!(
        view.retry_hint.as_deref(),
        Some("Adjust the failing action, then retry desktop restore.")
    );
    assert_eq!(settings.active_mode_features, Some(edited));

    let view = feature_choices_view(&mut settings, false, false);
    assert!(view.editable);
    assert_eq!(view.retry_hint, None);
}
