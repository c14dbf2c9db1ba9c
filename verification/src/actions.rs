//! The desktop actions of a mode transition: which ones run, in what order,
//! and how their outcomes are reported.
use vstd::prelude::*;
use vstd::string::StringExecFns;

verus! {

/// Runtime choices for the behaviors applied by a mode transition.
#[derive(Clone, Copy, Debug, PartialEq, Eq, Structural)]
pub struct ToggleOptions {
    pub taskbar_auto_hide: bool,
    pub desktop_icons: bool,
    pub desktop_background: bool,
    pub minimize_all_windows: bool,
}

impl Default for ToggleOptions {
    fn default() -> (r: Self)
        ensures
            !r.taskbar_auto_hide,
            !r.desktop_icons,
            !r.desktop_background,
            !r.minimize_all_windows,
    {
        ToggleOptions {
            taskbar_auto_hide: false,
            desktop_icons: false,
            desktop_background: false,
            minimize_all_windows: false,
        }
    }
}

/// The result of applying the selected actions for one mode transition.
#[derive(Debug)]
pub struct ActionReport {
    pub errors: Vec<String>,
}

impl Default for ActionReport {
    fn default() -> (r: Self)
        ensures
            r.errors@.len() == 0,
    {
        ActionReport { errors: Vec::new() }
    }
}

/// One change that Windows is asked to make.
#[derive(Clone, Copy, Debug, PartialEq, Eq, Structural)]
pub enum DesktopAction {
    /// Set taskbar auto-hide to the given state.
    SetTaskbarAutoHide(bool),
    /// Show (`true`) or hide (`false`) the desktop icons.
    SetDesktopIconsVisible(bool),
    /// Replace the wallpaper by solid black (`true`) or restore it (`false`).
    ApplySolidBackground(bool),
    /// Minimize every open window.
    MinimizeAllWindows,
}

/// What came of one `DesktopAction`.
#[derive(Clone, Debug)]
pub enum ActionOutcome {
    /// The action completed.
    Completed,
    /// Windows reported an error, described by the message.
    Failed(String),
    /// Taskbar auto-hide as Windows reports it after the change.
    TaskbarAutoHide(bool),
}

pub open spec fn optional_action(selected: bool, action: DesktopAction) -> Seq<DesktopAction> {
    if selected {
        seq![action]
    } else {
        Seq::empty()
    }
}

/// Gaming Mode: taskbar auto-hide on, icons hidden, black background, windows minimized,
/// each only when selected, in that order.
pub open spec fn spec_activation_actions(options: ToggleOptions) -> Seq<DesktopAction> {
    optional_action(options.taskbar_auto_hide, DesktopAction::SetTaskbarAutoHide(true))
        + optional_action(options.desktop_icons, DesktopAction::SetDesktopIconsVisible(false))
        + optional_action(options.desktop_background, DesktopAction::ApplySolidBackground(true))
        + optional_action(options.minimize_all_windows, DesktopAction::MinimizeAllWindows)
}

/// Desktop Mode: icons shown, wallpaper restored, and last the captured taskbar state,
/// each only when selected (the taskbar also only when its original state is known).
pub open spec fn spec_restoration_actions(
    options: ToggleOptions,
    original_taskbar_auto_hide: Option<bool>,
) -> Seq<DesktopAction> {
    optional_action(options.desktop_icons, DesktopAction::SetDesktopIconsVisible(true))
        + optional_action(options.desktop_background, DesktopAction::ApplySolidBackground(false))
        + match original_taskbar_auto_hide {
        Some(original) => optional_action(
            options.taskbar_auto_hide,
            DesktopAction::SetTaskbarAutoHide(original),
        ),
        None => Seq::empty(),
    }
}

pub open spec fn action_label(action: DesktopAction) -> Seq<char> {
    match action {
        DesktopAction::SetTaskbarAutoHide(_) => "Taskbar auto-hide: "@,
        DesktopAction::SetDesktopIconsVisible(_) => "Desktop icons: "@,
        DesktopAction::ApplySolidBackground(_) => "Desktop background: "@,
        DesktopAction::MinimizeAllWindows => "Minimize windows: "@,
    }
}

/// The error an outcome reports, if any. A taskbar change fails unless Windows
/// reports exactly the requested state.
pub open spec fn outcome_error(action: DesktopAction, outcome: ActionOutcome, restoring: bool) -> Option<
    Seq<char>,
> {
    match action {
        DesktopAction::SetTaskbarAutoHide(target) => if outcome matches ActionOutcome::TaskbarAutoHide(
            state,
        ) && state == target {
            None
        } else if restoring {
            Some("Taskbar auto-hide: Windows did not restore the original state"@)
        } else {
            Some("Taskbar auto-hide: Windows did not enable the requested state"@)
        },
        _ => match outcome {
            ActionOutcome::Failed(message) => Some(action_label(action) + message@),
            _ => None,
        },
    }
}

/// The errors of the first `count` actions, in order.
pub open spec fn report_errors(
    actions: Seq<DesktopAction>,
    outcomes: Seq<ActionOutcome>,
    restoring: bool,
    count: int,
) -> Seq<Seq<char>>
    decreases count,
{
    if count <= 0 {
        Seq::empty()
    } else {
        let previous = report_errors(actions, outcomes, restoring, count - 1);
        match outcome_error(actions[count - 1], outcomes[count - 1], restoring) {
            Some(error) => previous.push(error),
            None => previous,
        }
    }
}

pub open spec fn error_views(errors: Seq<String>) -> Seq<Seq<char>> {
    errors.map_values(|error: String| error@)
}

/// The message reported when the taskbar state to restore was never captured.
pub open spec fn missing_original_error() -> Seq<char> {
    "Taskbar auto-hide: The original state is unavailable and could not be restored"@
}

pub open spec fn spec_restore_errors(
    options: ToggleOptions,
    original_taskbar_auto_hide: Option<bool>,
    outcomes: Seq<ActionOutcome>,
) -> Seq<Seq<char>> {
    let actions = spec_restoration_actions(options, original_taskbar_auto_hide);
    let errors = report_errors(actions, outcomes, true, actions.len() as int);
    if options.taskbar_auto_hide && original_taskbar_auto_hide is None {
        errors.push(missing_original_error())
    } else {
        errors
    }
}

fn push_action(actions: &mut Vec<DesktopAction>, selected: bool, action: DesktopAction)
    ensures
        final(actions)@ == old(actions)@ + optional_action(selected, action),
{
    if selected {
        actions.push(action);
    }
    proof {
        assert(final(actions)@ =~= old(actions)@ + optional_action(selected, action));
    }
}

/// The Gaming Mode actions to run, in order.
pub fn activation_actions(options: ToggleOptions) -> (r: Vec<DesktopAction>)
    ensures
        r@ == spec_activation_actions(options),
{
    let mut actions: Vec<DesktopAction> = Vec::new();
    push_action(&mut actions, options.taskbar_auto_hide, DesktopAction::SetTaskbarAutoHide(true));
    push_action(&mut actions, options.desktop_icons, DesktopAction::SetDesktopIconsVisible(false));
    push_action(
        &mut actions,
        options.desktop_background,
        DesktopAction::ApplySolidBackground(true),
    );
    push_action(&mut actions, options.minimize_all_windows, DesktopAction::MinimizeAllWindows);
    proof {
        assert(actions@ =~= spec_activation_actions(options));
    }
    actions
}

/// The Desktop Mode actions to run, in order; restoring the taskbar comes last.
pub fn restoration_actions(options: ToggleOptions, original_taskbar_auto_hide: Option<bool>) -> (r:
    Vec<DesktopAction>)
    ensures
        r@ == spec_restoration_actions(options, original_taskbar_auto_hide),
{
    let mut actions: Vec<DesktopAction> = Vec::new();
    push_action(&mut actions, options.desktop_icons, DesktopAction::SetDesktopIconsVisible(true));
    push_action(
        &mut actions,
        options.desktop_background,
        DesktopAction::ApplySolidBackground(false),
    );
    match original_taskbar_auto_hide {
        Some(original) => push_action(
            &mut actions,
            options.taskbar_auto_hide,
            DesktopAction::SetTaskbarAutoHide(original),
        ),
        None => {},
    }
    proof {
        assert(actions@ =~= spec_restoration_actions(options, original_taskbar_auto_hide));
    }
    actions
}

fn action_error(action: DesktopAction, outcome: &ActionOutcome, restoring: bool) -> (r: Option<String>)
    ensures
        match r {
            Some(error) => outcome_error(action, *outcome, restoring) == Some(error@),
            None => outcome_error(action, *outcome, restoring) is None,
        },
{
    match action {
        DesktopAction::SetTaskbarAutoHide(target) => {
            let reached = match outcome {
                ActionOutcome::TaskbarAutoHide(state) => *state == target,
                _ => false,
            };
            if reached {
                None
            } else if restoring {
                Some(String::from_str("Taskbar auto-hide: Windows did not restore the original state"))
            } else {
                Some(String::from_str("Taskbar auto-hide: Windows did not enable the requested state"))
            }
        },
        _ => match outcome {
            ActionOutcome::Failed(message) => {
                let mut error = String::from_str(
                    match action {
                        DesktopAction::SetDesktopIconsVisible(_) => "Desktop icons: ",
                        DesktopAction::ApplySolidBackground(_) => "Desktop background: ",
                        _ => "Minimize windows: ",
                    },
                );
                error.append(message.as_str());
                Some(error)
            },
            _ => None,
        },
    }
}

fn collect_errors(actions: &Vec<DesktopAction>, outcomes: &[ActionOutcome], restoring: bool) -> (r:
    Vec<String>)
    requires
        outcomes@.len() == actions@.len(),
    ensures
        error_views(r@) == report_errors(
            actions@,
            outcomes@,
            restoring,
            actions@.len() as int,
        ),
{
    let mut errors: Vec<String> = Vec::new();
    let mut index: usize = 0;
    while index < actions.len()
        invariant
            outcomes@.len() == actions@.len(),
            index <= actions@.len(),
            error_views(errors@) == report_errors(
                actions@,
                outcomes@,
                restoring,
                index as int,
            ),
        decreases actions@.len() - index,
    {
        let error = action_error(actions[index], &outcomes[index], restoring);
        match error {
            Some(error) => {
                let ghost before = errors@;
                errors.push(error);
                proof {
                    assert(error_views(errors@) =~= error_views(before).push(error@));
                }
            },
            None => {},
        }
        index = index + 1;
    }
    errors
}

/// Reports the Gaming Mode actions: one error per failed action, in order.
/// `outcomes[i]` is what came of `activation_actions(options)[i]`.
pub fn activate(options: ToggleOptions, outcomes: &[ActionOutcome]) -> (r: ActionReport)
    requires
        outcomes@.len() == spec_activation_actions(options).len(),
    ensures
        error_views(r.errors@) == report_errors(
            spec_activation_actions(options),
            outcomes@,
            false,
            spec_activation_actions(options).len() as int,
        ),
{
    let actions = activation_actions(options);
    ActionReport { errors: collect_errors(&actions, outcomes, false) }
}

/// Reports the Desktop Mode actions: one error per failed action, in order, then
/// an error when taskbar restoration was selected but no original state was captured.
/// `outcomes[i]` is what came of `restoration_actions(options, original)[i]`.
pub fn restore(
    options: ToggleOptions,
    original_taskbar_auto_hide: Option<bool>,
    outcomes: &[ActionOutcome],
) -> (r: ActionReport)
    requires
        outcomes@.len() == spec_restoration_actions(options, original_taskbar_auto_hide).len(),
    ensures
        error_views(r.errors@) == spec_restore_errors(
            options,
            original_taskbar_auto_hide,
            outcomes@,
        ),
{
    let actions = restoration_actions(options, original_taskbar_auto_hide);
    let mut errors = collect_errors(&actions, outcomes, true);
    if options.taskbar_auto_hide && original_taskbar_auto_hide.is_none() {
        let ghost before = errors@;
        errors.push(
            String::from_str(
                "Taskbar auto-hide: The original state is unavailable and could not be restored",
            ),
        );
        proof {
            assert(error_views(errors@) =~= error_views(before).push(missing_original_error()));
        }
    }
    ActionReport { errors }
}

} // verus!

verus! {

/// The reversible desktop settings that mode transitions change.
#[derive(Clone, Copy, Debug, PartialEq, Eq, Structural)]
pub struct DesktopSettings {
    pub taskbar_auto_hide: bool,
    pub desktop_icons_visible: bool,
    pub solid_background: bool,
}

/// The settings after Windows performs `action`.
pub open spec fn apply_action(settings: DesktopSettings, action: DesktopAction) -> DesktopSettings {
    match action {
        DesktopAction::SetTaskbarAutoHide(state) => DesktopSettings {
            taskbar_auto_hide: state,
            ..settings
        },
        DesktopAction::SetDesktopIconsVisible(visible) => DesktopSettings {
            desktop_icons_visible: visible,
            ..settings
        },
        DesktopAction::ApplySolidBackground(solid) => DesktopSettings {
            solid_background: solid,
            ..settings
        },
        DesktopAction::MinimizeAllWindows => settings,
    }
}

/// The settings after Windows performs every action in order.
pub open spec fn apply_actions(settings: DesktopSettings, actions: Seq<DesktopAction>) -> DesktopSettings
    decreases actions.len(),
{
    if actions.len() == 0 {
        settings
    } else {
        apply_action(apply_actions(settings, actions.drop_last()), actions.last())
    }
}

proof fn lemma_apply_actions_append(
    settings: DesktopSettings,
    first: Seq<DesktopAction>,
    second: Seq<DesktopAction>,
)
    ensures
        apply_actions(settings, first + second) == apply_actions(
            apply_actions(settings, first),
            second,
        ),
    decreases second.len(),
{
    if second.len() == 0 {
        assert(first + second =~= first);
    } else {
        assert((first + second).drop_last() =~= first + second.drop_last());
        lemma_apply_actions_append(settings, first, second.drop_last());
    }
}

proof fn lemma_apply_optional(settings: DesktopSettings, selected: bool, action: DesktopAction)
    ensures
        apply_actions(settings, optional_action(selected, action)) == if selected {
            apply_action(settings, action)
        } else {
            settings
        },
{
    if selected {
        assert(optional_action(selected, action).drop_last() =~= Seq::<DesktopAction>::empty());
        assert(apply_actions(settings, Seq::<DesktopAction>::empty()) == settings);
    } else {
        assert(apply_actions(settings, Seq::<DesktopAction>::empty()) == settings);
    }
}

/// Restoring Desktop Mode with the captured taskbar state undoes Gaming Mode: starting
/// from a normal desktop (icons shown, wallpaper on), every reversible setting comes back
/// once every action succeeds.
pub proof fn lemma_restore_undoes_activate(options: ToggleOptions, desktop: DesktopSettings)
    requires
        desktop.desktop_icons_visible,
        !desktop.solid_background,
    ensures
        apply_actions(
            apply_actions(desktop, spec_activation_actions(options)),
            spec_restoration_actions(options, Some(desktop.taskbar_auto_hide)),
        ) == desktop,
{
    let a1 = optional_action(options.taskbar_auto_hide, DesktopAction::SetTaskbarAutoHide(true));
    let a2 = optional_action(options.desktop_icons, DesktopAction::SetDesktopIconsVisible(false));
    let a3 = optional_action(options.desktop_background, DesktopAction::ApplySolidBackground(true));
    let a4 = optional_action(options.minimize_all_windows, DesktopAction::MinimizeAllWindows);
    lemma_apply_actions_append(desktop, a1 + a2 + a3, a4);
    lemma_apply_actions_append(desktop, a1 + a2, a3);
    lemma_apply_actions_append(desktop, a1, a2);
    lemma_apply_optional(desktop, options.taskbar_auto_hide, DesktopAction::SetTaskbarAutoHide(true));
    let s1 = apply_actions(desktop, a1);
    lemma_apply_optional(s1, options.desktop_icons, DesktopAction::SetDesktopIconsVisible(false));
    let s2 = apply_actions(s1, a2);
    lemma_apply_optional(s2, options.desktop_background, DesktopAction::ApplySolidBackground(true));
    let s3 = apply_actions(s2, a3);
    lemma_apply_optional(s3, options.minimize_all_windows, DesktopAction::MinimizeAllWindows);
    let gaming = apply_actions(desktop, spec_activation_actions(options));
    let r1 = optional_action(options.desktop_icons, DesktopAction::SetDesktopIconsVisible(true));
    let r2 = optional_action(options.desktop_background, DesktopAction::ApplySolidBackground(false));
    let r3 = optional_action(
        options.taskbar_auto_hide,
        DesktopAction::SetTaskbarAutoHide(desktop.taskbar_auto_hide),
    );
    lemma_apply_actions_append(gaming, r1 + r2, r3);
    lemma_apply_actions_append(gaming, r1, r2);
    lemma_apply_optional(gaming, options.desktop_icons, DesktopAction::SetDesktopIconsVisible(true));
    let t1 = apply_actions(gaming, r1);
    lemma_apply_optional(t1, options.desktop_background, DesktopAction::ApplySolidBackground(false));
    let t2 = apply_actions(t1, r2);
    lemma_apply_optional(
        t2,
        options.taskbar_auto_hide,
        DesktopAction::SetTaskbarAutoHide(desktop.taskbar_auto_hide),
    );
}

/// When the taskbar is restored, its restoration is the last action.
pub proof fn lemma_taskbar_restored_last(options: ToggleOptions, original: bool)
    requires
        options.taskbar_auto_hide,
    ensures
        spec_restoration_actions(options, Some(original)).last() == DesktopAction::SetTaskbarAutoHide(
            original,
        ),
{
}

/// Desktop Mode never brings back windows that Gaming Mode minimized: no
/// restoration action touches the windows.
pub proof fn lemma_restore_keeps_windows_minimized(
    options: ToggleOptions,
    original_taskbar_auto_hide: Option<bool>,
)
    ensures
        !spec_restoration_actions(options, original_taskbar_auto_hide).contains(
            DesktopAction::MinimizeAllWindows,
        ),
{
    let actions = spec_restoration_actions(options, original_taskbar_auto_hide);
    assert forall|i: int| 0 <= i < actions.len() implies actions[i]
        != DesktopAction::MinimizeAllWindows by {
        let r1 = optional_action(options.desktop_icons, DesktopAction::SetDesktopIconsVisible(true));
        let r2 = optional_action(
            options.desktop_background,
            DesktopAction::ApplySolidBackground(false),
        );
        if i < r1.len() {
            assert(actions[i] == r1[i]);
        } else if i < r1.len() + r2.len() {
            assert(actions[i] == r2[i - r1.len()]);
        }
    }
}

proof fn lemma_concat_contains(a: Seq<DesktopAction>, b: Seq<DesktopAction>, x: DesktopAction)
    ensures
        (a + b).contains(x) <==> (a.contains(x) || b.contains(x)),
{
    let both = a + b;
    if both.contains(x) {
        let k = choose|k: int| 0 <= k < both.len() && both[k] == x;
        if k < a.len() {
            assert(a[k] == x);
        } else {
            assert(b[k - a.len()] == x);
        }
    }
    if a.contains(x) {
        let k = choose|k: int| 0 <= k < a.len() && a[k] == x;
        assert(both[k] == x);
    }
    if b.contains(x) {
        let k = choose|k: int| 0 <= k < b.len() && b[k] == x;
        assert(both[a.len() + k] == x);
    }
}

proof fn lemma_optional_contains(selected: bool, action: DesktopAction, x: DesktopAction)
    ensures
        optional_action(selected, action).contains(x) <==> (selected && x == action),
{
    if selected && x == action {
        assert(optional_action(selected, action)[0] == x);
    }
}

/// Entering Gaming Mode runs each selected action, whatever else is
/// selected, and no action that is not selected.
pub proof fn lemma_activation_runs_exactly_the_selected_actions(options: ToggleOptions)
    ensures
        spec_activation_actions(options).contains(DesktopAction::SetTaskbarAutoHide(true))
            <==> options.taskbar_auto_hide,
        spec_activation_actions(options).contains(DesktopAction::SetDesktopIconsVisible(false))
            <==> options.desktop_icons,
        spec_activation_actions(options).contains(DesktopAction::ApplySolidBackground(true))
            <==> options.desktop_background,
        spec_activation_actions(options).contains(DesktopAction::MinimizeAllWindows)
            <==> options.minimize_all_windows,
        spec_activation_actions(options).len() == options.taskbar_auto_hide as int
            + options.desktop_icons as int + options.desktop_background as int
            + options.minimize_all_windows as int,
{
    let a1 = optional_action(options.taskbar_auto_hide, DesktopAction::SetTaskbarAutoHide(true));
    let a2 = optional_action(options.desktop_icons, DesktopAction::SetDesktopIconsVisible(false));
    let a3 = optional_action(options.desktop_background, DesktopAction::ApplySolidBackground(true));
    let a4 = optional_action(options.minimize_all_windows, DesktopAction::MinimizeAllWindows);
    assert forall|x: DesktopAction| #[trigger] spec_activation_actions(options).contains(x) <==> (
    a1.contains(x) || a2.contains(x) || a3.contains(x) || a4.contains(x)) by {
        lemma_concat_contains(a1 + a2 + a3, a4, x);
        lemma_concat_contains(a1 + a2, a3, x);
        lemma_concat_contains(a1, a2, x);
    }
    let actions = seq![
        DesktopAction::SetTaskbarAutoHide(true),
        DesktopAction::SetDesktopIconsVisible(false),
        DesktopAction::ApplySolidBackground(true),
        DesktopAction::MinimizeAllWindows,
    ];
    assert forall|i: int| 0 <= i < 4 implies (spec_activation_actions(options).contains(
        #[trigger] actions[i],
    ) <==> (a1.contains(actions[i]) || a2.contains(actions[i]) || a3.contains(actions[i])
        || a4.contains(actions[i]))) by {}
    lemma_optional_contains(options.taskbar_auto_hide, DesktopAction::SetTaskbarAutoHide(true), actions[0]);
    lemma_optional_contains(options.desktop_icons, DesktopAction::SetDesktopIconsVisible(false), actions[0]);
    lemma_optional_contains(options.desktop_background, DesktopAction::ApplySolidBackground(true), actions[0]);
    lemma_optional_contains(options.minimize_all_windows, DesktopAction::MinimizeAllWindows, actions[0]);
    lemma_optional_contains(options.taskbar_auto_hide, DesktopAction::SetTaskbarAutoHide(true), actions[1]);
    lemma_optional_contains(options.desktop_icons, DesktopAction::SetDesktopIconsVisible(false), actions[1]);
    lemma_optional_contains(options.desktop_background, DesktopAction::ApplySolidBackground(true), actions[1]);
    lemma_optional_contains(options.minimize_all_windows, DesktopAction::MinimizeAllWindows, actions[1]);
    lemma_optional_contains(options.taskbar_auto_hide, DesktopAction::SetTaskbarAutoHide(true), actions[2]);
    lemma_optional_contains(options.desktop_icons, DesktopAction::SetDesktopIconsVisible(false), actions[2]);
    lemma_optional_contains(options.desktop_background, DesktopAction::ApplySolidBackground(true), actions[2]);
    lemma_optional_contains(options.minimize_all_windows, DesktopAction::MinimizeAllWindows, actions[2]);
    lemma_optional_contains(options.taskbar_auto_hide, DesktopAction::SetTaskbarAutoHide(true), actions[3]);
    lemma_optional_contains(options.desktop_icons, DesktopAction::SetDesktopIconsVisible(false), actions[3]);
    lemma_optional_contains(options.desktop_background, DesktopAction::ApplySolidBackground(true), actions[3]);
    lemma_optional_contains(options.minimize_all_windows, DesktopAction::MinimizeAllWindows, actions[3]);
}

/// Restoring Desktop Mode shows the icons again exactly when they were
/// selected, restores the wallpaper exactly when it was selected, and sets the
/// taskbar back to exactly the captured state when that was selected and
/// captured.
pub proof fn lemma_restoration_runs_exactly_the_selected_actions(
    options: ToggleOptions,
    original_taskbar_auto_hide: Option<bool>,
    state: bool,
)
    ensures
        spec_restoration_actions(options, original_taskbar_auto_hide).contains(
            DesktopAction::SetDesktopIconsVisible(true),
        ) <==> options.desktop_icons,
        spec_restoration_actions(options, original_taskbar_auto_hide).contains(
            DesktopAction::ApplySolidBackground(false),
        ) <==> options.desktop_background,
        spec_restoration_actions(options, original_taskbar_auto_hide).contains(
            DesktopAction::SetTaskbarAutoHide(state),
        ) <==> (options.taskbar_auto_hide && original_taskbar_auto_hide == Some(state)),
{
    let r1 = optional_action(options.desktop_icons, DesktopAction::SetDesktopIconsVisible(true));
    let r2 = optional_action(options.desktop_background, DesktopAction::ApplySolidBackground(false));
    let r3 = match original_taskbar_auto_hide {
        Some(original) => optional_action(
            options.taskbar_auto_hide,
            DesktopAction::SetTaskbarAutoHide(original),
        ),
        None => Seq::empty(),
    };
    assert(spec_restoration_actions(options, original_taskbar_auto_hide) == r1 + r2 + r3);
    let icons = DesktopAction::SetDesktopIconsVisible(true);
    let wallpaper = DesktopAction::ApplySolidBackground(false);
    let taskbar = DesktopAction::SetTaskbarAutoHide(state);
    lemma_concat_contains(r1 + r2, r3, icons);
    lemma_concat_contains(r1, r2, icons);
    lemma_concat_contains(r1 + r2, r3, wallpaper);
    lemma_concat_contains(r1, r2, wallpaper);
    lemma_concat_contains(r1 + r2, r3, taskbar);
    lemma_concat_contains(r1, r2, taskbar);
    lemma_optional_contains(options.desktop_icons, icons, icons);
    lemma_optional_contains(options.desktop_icons, icons, wallpaper);
    lemma_optional_contains(options.desktop_icons, icons, taskbar);
    lemma_optional_contains(options.desktop_background, wallpaper, icons);
    lemma_optional_contains(options.desktop_background, wallpaper, wallpaper);
    lemma_optional_contains(options.desktop_background, wallpaper, taskbar);
    match original_taskbar_auto_hide {
        Some(original) => {
            let restored = DesktopAction::SetTaskbarAutoHide(original);
            lemma_optional_contains(options.taskbar_auto_hide, restored, icons);
            lemma_optional_contains(options.taskbar_auto_hide, restored, wallpaper);
            lemma_optional_contains(options.taskbar_auto_hide, restored, taskbar);
        },
        None => {},
    }
}

/// A report is empty exactly when every action succeeded.
pub proof fn lemma_report_empty_iff_all_succeeded(
    actions: Seq<DesktopAction>,
    outcomes: Seq<ActionOutcome>,
    restoring: bool,
    count: int,
)
    requires
        0 <= count,
    ensures
        report_errors(actions, outcomes, restoring, count).len() == 0 <==> forall|i: int|
            0 <= i < count ==> #[trigger] outcome_error(actions[i], outcomes[i], restoring) is None,
    decreases count,
{
    if count > 0 {
        lemma_report_empty_iff_all_succeeded(actions, outcomes, restoring, count - 1);
    }
}

} // verus!

verus! {

/// The auto-hide bit of the taskbar's app-bar state.
pub const ABS_AUTOHIDE: usize = 1;

/// The app-bar state with auto-hide set to `enabled` and every other bit kept.
pub open spec fn spec_with_auto_hide(appbar_state: usize, enabled: bool) -> usize {
    (appbar_state / 2 * 2 + if enabled {
        1int
    } else {
        0int
    }) as usize
}

/// Whether the taskbar's app-bar state has auto-hide enabled.
pub fn auto_hide_enabled(appbar_state: usize) -> (r: bool)
    ensures
        r == (appbar_state % 2 == 1),
{
    let masked = appbar_state & ABS_AUTOHIDE;
    proof {
        assert(masked == appbar_state % 2) by (bit_vector)
            requires
                masked == appbar_state & 1usize,
        ;
    }
    masked != 0
}

/// The app-bar state to send so that auto-hide becomes `enabled`.
pub fn with_auto_hide(appbar_state: usize, enabled: bool) -> (r: usize)
    ensures
        r == spec_with_auto_hide(appbar_state, enabled),
{
    if enabled {
        let r = appbar_state | ABS_AUTOHIDE;
        proof {
            assert(r == appbar_state / 2 * 2 + 1) by (bit_vector)
                requires
                    r == appbar_state | 1usize,
            ;
        }
        r
    } else {
        let r = appbar_state & !ABS_AUTOHIDE;
        proof {
            assert(r == appbar_state / 2 * 2) by (bit_vector)
                requires
                    r == appbar_state & !1usize,
            ;
        }
        r
    }
}

/// The app-bar state with auto-hide flipped.
pub fn toggled_auto_hide(appbar_state: usize) -> (r: usize)
    ensures
        r == spec_with_auto_hide(appbar_state, appbar_state % 2 == 0),
{
    let enabled = auto_hide_enabled(appbar_state);
    with_auto_hide(appbar_state, !enabled)
}

/// Setting auto-hide changes only that bit, and reading it back gives the value set.
pub proof fn lemma_with_auto_hide_reads_back(appbar_state: usize, enabled: bool)
    ensures
        (spec_with_auto_hide(appbar_state, enabled) % 2 == 1) == enabled,
        spec_with_auto_hide(appbar_state, enabled) / 2 == appbar_state / 2,
{
}

/// Toggling auto-hide twice restores the original app-bar state.
pub proof fn lemma_toggle_twice_restores(appbar_state: usize)
    ensures
        ({
            let once = spec_with_auto_hide(appbar_state, appbar_state % 2 == 0);
            spec_with_auto_hide(once, once % 2 == 0) == appbar_state
        }),
{
}

} // verus!
