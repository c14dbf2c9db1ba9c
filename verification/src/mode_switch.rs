//! The decisions around one press of the mode button: which action choices
//! the change uses, and what to show and do once Windows has answered.
use vstd::prelude::*;
use vstd::string::StringExecFns;
use crate::actions::error_views;
use crate::display::Resolution;
use crate::picker::{FeatureChoices, Settings};

verus! {

/// What came of a mode change: the mode the desktop is in afterwards, whether
/// an optional action failed, and the errors reported.
pub struct SwitchReport {
    pub gaming_mode_enabled: bool,
    pub optional_actions_failed: bool,
    pub errors: Vec<String>,
}

/// What the window shows after a mode change, and the profile resolution to
/// apply now.
pub struct SwitchOutcome {
    pub errors: Vec<String>,
    /// Restoring Desktop Mode left Gaming Mode on because an optional action
    /// could not be undone.
    pub restore_actions_failed: bool,
    pub apply_resolution: Option<Resolution>,
}

/// The choices a mode change uses: leaving Gaming Mode undoes the choices it
/// was entered with (the current ones when those were not kept); entering it
/// uses the current choices.
pub open spec fn spec_switch_choices(was_enabled: bool, settings: Settings) -> FeatureChoices {
    if was_enabled {
        match settings.active_mode_features {
            Some(choices) => choices,
            None => settings.features,
        }
    } else {
        settings.features
    }
}

/// Picks the choices for a mode change; entering Gaming Mode records them.
pub fn switch_choices(was_enabled: bool, settings: &mut Settings) -> (r: FeatureChoices)
    ensures
        r == spec_switch_choices(was_enabled, *old(settings)),
        final(settings).active_mode_features == if was_enabled {
            old(settings).active_mode_features
        } else {
            Some(old(settings).features)
        },
        final(settings).features == old(settings).features,
        final(settings).desktop_resolution == old(settings).desktop_resolution,
        final(settings).gaming_resolution == old(settings).gaming_resolution,
        final(settings).tray_close_notice_acknowledged == old(settings).tray_close_notice_acknowledged,
{
    if was_enabled {
        match settings.active_mode_features {
            Some(choices) => choices,
            None => settings.features,
        }
    } else {
        let choices = settings.features;
        settings.active_mode_features = Some(choices);
        choices
    }
}

pub open spec fn retry_message() -> Seq<char> {
    "Uncheck a failing action if Windows cannot restore it, then retry."@
}

pub open spec fn unchanged_message() -> Seq<char> {
    "Windows did not change the main mode."@
}

/// The errors shown after a mode change: the reported ones, and when the mode
/// did not change, a hint to retry (after a failed restoration) or, when
/// nothing was reported, that the mode stayed.
pub open spec fn switch_errors(
    was_enabled: bool,
    gaming_mode_enabled: bool,
    optional_actions_failed: bool,
    errors: Seq<Seq<char>>,
) -> Seq<Seq<char>> {
    if gaming_mode_enabled != was_enabled {
        errors
    } else if was_enabled && gaming_mode_enabled && optional_actions_failed {
        errors.push(retry_message())
    } else if errors.len() == 0 {
        seq![unchanged_message()]
    } else {
        errors
    }
}

/// Settles the settings after a mode change: Gaming Mode keeps the choices it
/// was entered with, Desktop Mode keeps none. After a real change, the profile
/// of the new mode is to be applied when the choices include changing the
/// resolution; otherwise the resolution stays and both profiles are kept.
pub fn finish_switch(
    was_enabled: bool,
    choices: FeatureChoices,
    report: SwitchReport,
    settings: &mut Settings,
) -> (r: SwitchOutcome)
    ensures
        error_views(r.errors@) == switch_errors(
            was_enabled,
            report.gaming_mode_enabled,
            report.optional_actions_failed,
            error_views(report.errors@),
        ),
        r.restore_actions_failed == (was_enabled && report.gaming_mode_enabled
            && report.optional_actions_failed),
        r.apply_resolution == if report.gaming_mode_enabled == was_enabled
            || !choices.change_resolution {
            None
        } else if report.gaming_mode_enabled {
            old(settings).gaming_resolution
        } else {
            old(settings).desktop_resolution
        },
        final(settings).active_mode_features == if report.gaming_mode_enabled {
            Some(choices)
        } else {
            None
        },
        final(settings).features == old(settings).features,
        final(settings).desktop_resolution == old(settings).desktop_resolution,
        final(settings).gaming_resolution == old(settings).gaming_resolution,
        final(settings).tray_close_notice_acknowledged == old(settings).tray_close_notice_acknowledged,
{
    let transition_succeeded = report.gaming_mode_enabled != was_enabled;
    let restore_actions_failed = was_enabled && report.gaming_mode_enabled
        && report.optional_actions_failed;
    if report.gaming_mode_enabled {
        settings.active_mode_features = Some(choices);
    } else {
        settings.active_mode_features = None;
    }
    let mut errors = report.errors;
    let ghost reported = errors@;
    let mut apply_resolution: Option<Resolution> = None;
    if !transition_succeeded {
        if restore_actions_failed {
            errors.push(
                String::from_str("Uncheck a failing action if Windows cannot restore it, then retry."),
            );
            proof {
                assert(error_views(errors@) =~= error_views(reported).push(retry_message()));
            }
        } else if errors.len() == 0 {
            errors.push(String::from_str("Windows did not change the main mode."));
            proof {
                assert(error_views(errors@) =~= seq![unchanged_message()]);
            }
        }
    } else if choices.change_resolution {
        apply_resolution = if report.gaming_mode_enabled {
            settings.gaming_resolution
        } else {
            settings.desktop_resolution
        };
    }
    SwitchOutcome { errors, restore_actions_failed, apply_resolution }
}

/// How the action choices are offered: whether they can be edited, and the
/// hint shown under them.
pub struct FeatureChoicesView {
    pub editable: bool,
    pub retry_hint: Option<String>,
}

pub open spec fn retry_hint_message() -> Seq<char> {
    "Adjust the failing action, then retry desktop restore."@
}

/// The action choices while the window shows a mode. They are fixed in Gaming
/// Mode, except after a restoration failed: then they can be changed, a hint
/// says to retry, and the edited choices become the ones the next restoration
/// undoes.
pub fn feature_choices_view(
    settings: &mut Settings,
    gaming_mode: bool,
    restore_actions_failed: bool,
) -> (r: FeatureChoicesView)
    ensures
        r.editable == (!gaming_mode || restore_actions_failed),
        match r.retry_hint {
            Some(hint) => gaming_mode && restore_actions_failed && hint@ == retry_hint_message(),
            None => !(gaming_mode && restore_actions_failed),
        },
        final(settings).active_mode_features == if gaming_mode && restore_actions_failed {
            Some(old(settings).features)
        } else {
            old(settings).active_mode_features
        },
        final(settings).features == old(settings).features,
        final(settings).desktop_resolution == old(settings).desktop_resolution,
        final(settings).gaming_resolution == old(settings).gaming_resolution,
        final(settings).tray_close_notice_acknowledged == old(settings).tray_close_notice_acknowledged,
{
    let retrying = gaming_mode && restore_actions_failed;
    let retry_hint = if retrying {
        settings.active_mode_features = Some(settings.features);
        Some(String::from_str("Adjust the failing action, then retry desktop restore."))
    } else {
        None
    };
    FeatureChoicesView { editable: !gaming_mode || restore_actions_failed, retry_hint }
}

} // verus!
