use borderless_gaming::display::{
    change_result, deduplicate_resolutions, map_change_result, primary_native_resolution,
    primary_resolution, primary_resolutions, sort_resolutions_descending, validation_result,
    ChangeError, ChangeOutcome, DisplayError, PreferredMode, Resolution, DISP_CHANGE_BADDUALVIEW,
    DISP_CHANGE_BADFLAGS, DISP_CHANGE_BADMODE, DISP_CHANGE_BADPARAM, DISP_CHANGE_FAILED,
    DISP_CHANGE_NOTUPDATED, DISP_CHANGE_RESTART, DISP_CHANGE_SUCCESSFUL,
};

#[test]
fn resolutions_are_deduplicated_and_sorted_by_height_then_width_descending() {
    let resolutions = deduplicate_resolutions(vec![
        Resolution::new(3840, 1080),
        Resolution::new(1280, 720),
        Resolution::new(2560, 1440),
        Resolution::new(3440, 1440),
        Resolution::new(3840, 1080),
        Resolution::new(1920, 1200),
    ]);

    assert_eq!(
        resolutions,
        [
            Resolution::new(3440, 1440),
            Resolution::new(2560, 1440),
            Resolution::new(1920, 1200),
            Resolution::new(3840, 1080),
            Resolution::new(1280, 720),
        ]
    );
}

#[test]
fn resolution_has_a_picker_friendly_label() {
    assert_eq!(Resolution::new(2560, 1440).to_string(), "2560 × 1440");
}

#[test]
fn successful_and_restart_results_are_outcomes() {
    assert_eq!(
        map_change_result(DISP_CHANGE_SUCCESSFUL),
        Ok(ChangeOutcome::Applied)
    );
    assert_eq!(
        map_change_result(DISP_CHANGE_RESTART),
        Ok(ChangeOutcome::RestartRequired)
    );
}

#[test]
fn driver_failures_are_mapped_without_calling_windows() {
    assert_eq!(
        map_change_result(DISP_CHANGE_BADMODE),
        Err(ChangeError::BadMode)
    );
    assert_eq!(
        map_change_result(DISP_CHANGE_NOTUPDATED),
        Err(ChangeError::NotUpdated)
    );
    assert_eq!(map_change_result(42), Err(ChangeError::Unknown(42)));
}

#[test]
fn every_driver_failure_has_its_own_error() {
    assert_eq!(map_change_result(DISP_CHANGE_BADDUALVIEW), Err(ChangeError::BadDualView));
    assert_eq!(map_change_result(DISP_CHANGE_BADFLAGS), Err(ChangeError::BadFlags));
    assert_eq!(map_change_result(DISP_CHANGE_BADPARAM), Err(ChangeError::BadParameter));
    assert_eq!(map_change_result(DISP_CHANGE_FAILED), Err(ChangeError::Failed));
    assert_eq!(map_change_result(-7), Err(ChangeError::Unknown(-7)));
}

#[test]
fn validation_and_application_failures_are_told_apart() {
    assert_eq!(validation_result(DISP_CHANGE_SUCCESSFUL), Ok(ChangeOutcome::Applied));
    assert_eq!(
        validation_result(DISP_CHANGE_BADMODE),
        Err(DisplayError::ValidationFailed(ChangeError::BadMode))
    );
    assert_eq!(change_result(DISP_CHANGE_RESTART), Ok(ChangeOutcome::RestartRequired));
    assert_eq!(
        change_result(DISP_CHANGE_FAILED),
        Err(DisplayError::ApplyFailed(ChangeError::Failed))
    );
}

#[test]
fn error_messages_describe_the_failure() {
    assert_eq!(
        ChangeError::Unknown(-42).to_string(),
        "unknown display-change result (-42)"
    );
    assert_eq!(
        DisplayError::ApplyFailed(ChangeError::BadMode).to_string(),
        "Windows could not apply the requested resolution: the requested display mode is not supported"
    );
    assert_eq!(
        DisplayError::DisplayConfigurationFailed(87).to_string(),
        "Windows display configuration query failed (87)"
    );
    assert_eq!(
        DisplayError::NoResolutions.to_string(),
        "Windows reported no primary-display modes"
    );
    assert_eq!(
        DisplayError::ValidationFailed(ChangeError::NotUpdated).source(),
        Some(ChangeError::NotUpdated)
    );
    assert_eq!(DisplayError::NoResolutions.source(), None);
}

#[test]
fn sorting_keeps_repeats_and_orders_by_height_then_width() {
    let mut resolutions = vec![
        Resolution::new(1280, 720),
        Resolution::new(1920, 1080),
        Resolution::new(1280, 720),
        Resolution::new(2560, 1080),
    ];
    sort_resolutions_descending(&mut resolutions);
    assert_eq!(
        resolutions,
        [
            Resolution::new(2560, 1080),
            Resolution::new(1920, 1080),
            Resolution::new(1280, 720),
            Resolution::new(1280, 720),
        ]
    );
}

#[test]
fn primary_modes_need_at_least_one_resolution() {
    assert_eq!(primary_resolutions(Vec::new()), Err(DisplayError::NoResolutions));
    assert_eq!(
        primary_resolutions(vec![Resolution::new(800, 600), Resolution::new(800, 600)]),
        Ok(vec![Resolution::new(800, 600)])
    );
    assert_eq!(
        primary_resolution(None),
        Err(DisplayError::CurrentResolutionUnavailable)
    );
    assert_eq!(
        primary_resolution(Some(Resolution::new(1920, 1080))),
        Ok(Resolution::new(1920, 1080))
    );
}

#[test]
fn rotated_native_modes_are_reported_in_desktop_orientation() {
    let portrait = PreferredMode { width: 2160, height: 3840, rotated: true };
    assert_eq!(
        primary_native_resolution(Ok(portrait)),
        Ok(Resolution::new(3840, 2160))
    );
    let landscape = PreferredMode { width: 3440, height: 1440, rotated: false };
    assert_eq!(
        primary_native_resolution(Ok(landscape)),
        Ok(Resolution::new(3440, 1440))
    );
    let empty = PreferredMode { width: 0, height: 1440, rotated: false };
    assert_eq!(
        primary_native_resolution(Ok(empty)),
        Err(DisplayError::NativeResolutionUnavailable)
    );
    assert_eq!(
        primary_native_resolution(Err(DisplayError::DisplayConfigurationFailed(5))),
        Err(DisplayError::DisplayConfigurationFailed(5))
    );
}
