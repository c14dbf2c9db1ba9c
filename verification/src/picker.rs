//! The Desktop and Gaming resolution profiles and the list the picker offers.
use vstd::prelude::*;
use crate::actions::ToggleOptions;
use crate::display::{
    deduplicate_resolutions, lemma_push_contains, same_resolutions, strictly_descending,
    DisplayError, Resolution,
};

verus! {

/// The optional Gaming Mode actions the user selected.
#[derive(Clone, Copy, Debug, PartialEq, Eq, Structural)]
pub struct FeatureChoices {
    pub desktop_icons: bool,
    pub desktop_background: bool,
    pub minimize_all_windows: bool,
    /// Switch the primary display to the profile of the new mode.
    pub change_resolution: bool,
}

impl Default for FeatureChoices {
    fn default() -> (r: Self)
        ensures
            r.desktop_icons,
            r.desktop_background,
            r.minimize_all_windows,
            r.change_resolution,
    {
        FeatureChoices {
            desktop_icons: true,
            desktop_background: true,
            minimize_all_windows: true,
            change_resolution: true,
        }
    }
}

impl FeatureChoices {
    /// The transition options for these choices; taskbar auto-hide always takes part.
    pub fn toggle_options(&self) -> (r: ToggleOptions)
        ensures
            r.taskbar_auto_hide,
            r.desktop_icons == self.desktop_icons,
            r.desktop_background == self.desktop_background,
            r.minimize_all_windows == self.minimize_all_windows,
    {
        ToggleOptions {
            taskbar_auto_hide: true,
            desktop_icons: self.desktop_icons,
            desktop_background: self.desktop_background,
            minimize_all_windows: self.minimize_all_windows,
        }
    }
}

/// The persisted user settings.
#[derive(Clone, Copy, Debug, PartialEq, Eq, Structural)]
pub struct Settings {
    pub features: FeatureChoices,
    pub active_mode_features: Option<FeatureChoices>,
    pub desktop_resolution: Option<Resolution>,
    pub gaming_resolution: Option<Resolution>,
    pub tray_close_notice_acknowledged: bool,
}

impl Default for Settings {
    fn default() -> (r: Self)
        ensures
            r.features.desktop_icons && r.features.desktop_background
                && r.features.minimize_all_windows && r.features.change_resolution,
            r.active_mode_features is None,
            r.desktop_resolution is None,
            r.gaming_resolution is None,
            !r.tray_close_notice_acknowledged,
    {
        Settings {
            features: FeatureChoices::default(),
            active_mode_features: None,
            desktop_resolution: None,
            gaming_resolution: None,
            tray_close_notice_acknowledged: false,
        }
    }
}

/// A resolution may be offered unless it is taller than the native one.
pub open spec fn spec_resolution_is_allowed(resolution: Resolution, native: Option<Resolution>) -> bool {
    match native {
        Some(native) => resolution.height <= native.height,
        None => true,
    }
}

/// Under a known native resolution, exactly the resolutions no taller than it
/// are allowed, whatever their width; without one, every resolution is.
pub proof fn lemma_allowed_means_no_taller_than_native(resolution: Resolution, native: Option<
    Resolution,
>)
    ensures
        native matches Some(n) ==> (spec_resolution_is_allowed(resolution, native)
            <==> resolution.height <= n.height),
        native is None ==> spec_resolution_is_allowed(resolution, native),
{
}

pub fn resolution_is_allowed(resolution: Resolution, native: Option<Resolution>) -> (r: bool)
    ensures
        r == spec_resolution_is_allowed(resolution, native),
{
    match native {
        Some(native) => resolution.height <= native.height,
        None => true,
    }
}

/// A saved profile that is no longer allowed becomes `default`.
pub fn replace_disallowed_profile(
    profile: &mut Option<Resolution>,
    default: Resolution,
    native: Option<Resolution>,
)
    ensures
        *final(profile) == match *old(profile) {
            Some(resolution) => if spec_resolution_is_allowed(resolution, native) {
                Some(resolution)
            } else {
                Some(default)
            },
            None => None,
        },
{
    match *profile {
        Some(resolution) => {
            if !resolution_is_allowed(resolution, native) {
                *profile = Some(default);
            }
        },
        None => {},
    }
}

/// A missing profile becomes `default`; a saved one is kept.
pub fn initialize_profile(profile: &mut Option<Resolution>, default: Resolution)
    ensures
        *final(profile) == match *old(profile) {
            Some(resolution) => Some(resolution),
            None => Some(default),
        },
{
    if profile.is_none() {
        *profile = Some(default);
    }
}


/// The resolution that fills a missing or refused profile: the current one
/// when it is allowed, else the native one (which is then known).
pub open spec fn profile_default(current: Resolution, native: Option<Resolution>) -> Resolution {
    if spec_resolution_is_allowed(current, native) {
        current
    } else {
        native->0
    }
}

/// A saved profile after loading: kept when allowed, else `default`.
pub open spec fn settled_profile(
    saved: Option<Resolution>,
    default: Resolution,
    native: Option<Resolution>,
) -> Resolution {
    match saved {
        Some(resolution) => if spec_resolution_is_allowed(resolution, native) {
            resolution
        } else {
            default
        },
        None => default,
    }
}

/// After loading, both profiles are allowed: a saved profile that is taller
/// than the native resolution gives way to the default, which is allowed.
pub proof fn lemma_settled_profile_is_allowed(
    saved: Option<Resolution>,
    current: Resolution,
    native: Option<Resolution>,
)
    ensures
        spec_resolution_is_allowed(
            settled_profile(saved, profile_default(current, native), native),
            native,
        ),
{
}

/// Loading again against the same display keeps both profiles: settling a
/// settled profile changes nothing.
pub proof fn lemma_settling_is_idempotent(
    saved: Option<Resolution>,
    current: Resolution,
    native: Option<Resolution>,
)
    ensures
        ({
            let default = profile_default(current, native);
            settled_profile(Some(settled_profile(saved, default, native)), default, native)
                == settled_profile(saved, default, native)
        }),
{
}

/// The resolutions the picker offers and the display's native one.
pub struct DisplayPicker {
    /// Everything listed: the available resolutions and both saved profiles.
    pub resolutions: Vec<Resolution>,
    /// What the display can be switched to now.
    pub available_resolutions: Vec<Resolution>,
    pub native: Option<Resolution>,
}

impl Default for DisplayPicker {
    fn default() -> (r: Self)
        ensures
            r.resolutions@.len() == 0,
            r.available_resolutions@.len() == 0,
            r.native is None,
    {
        DisplayPicker { resolutions: Vec::new(), available_resolutions: Vec::new(), native: None }
    }
}

fn contains_resolution(list: &Vec<Resolution>, resolution: Resolution) -> (r: bool)
    ensures
        r == list@.contains(resolution),
{
    let mut index: usize = 0;
    while index < list.len()
        invariant
            index <= list@.len(),
            forall|k: int| 0 <= k < index ==> list@[k] != resolution,
        decreases list@.len() - index,
    {
        if list[index] == resolution {
            assert(list@[index as int] == resolution);
            return true;
        }
        index = index + 1;
    }
    false
}

/// Adds `resolution` when it is allowed and not yet listed.
fn add_allowed(list: &mut Vec<Resolution>, resolution: Resolution, native: Option<Resolution>)
    ensures
        forall|r: Resolution| #[trigger] final(list)@.contains(r) <==> (old(list)@.contains(r) || (
        r == resolution && spec_resolution_is_allowed(resolution, native))),
{
    if resolution_is_allowed(resolution, native) && !contains_resolution(list, resolution) {
        let ghost before = list@;
        list.push(resolution);
        proof {
            assert forall|r: Resolution| #[trigger] list@.contains(r) <==> (before.contains(r) || r
                == resolution) by {
                lemma_push_contains(before, resolution, r);
            }
        }
    }
}

/// The resolutions of `list` that are allowed under `native`.
fn allowed_resolutions(list: &Vec<Resolution>, native: Option<Resolution>) -> (r: Vec<Resolution>)
    ensures
        forall|x: Resolution| #[trigger] r@.contains(x) <==> (list@.contains(x)
            && spec_resolution_is_allowed(x, native)),
{
    let mut kept: Vec<Resolution> = Vec::new();
    let mut index: usize = 0;
    while index < list.len()
        invariant
            index <= list@.len(),
            forall|x: Resolution| #[trigger] kept@.contains(x) <==> (list@.subrange(
                0,
                index as int,
            ).contains(x) && spec_resolution_is_allowed(x, native)),
        decreases list@.len() - index,
    {
        let resolution = list[index];
        let ghost before = kept@;
        let ghost prefix = list@.subrange(0, index as int);
        assert(list@.subrange(0, index + 1) == prefix.push(resolution));
        if resolution_is_allowed(resolution, native) {
            kept.push(resolution);
        }
        proof {
            assert forall|x: Resolution| #[trigger] kept@.contains(x) <==> (list@.subrange(
                0,
                index + 1,
            ).contains(x) && spec_resolution_is_allowed(x, native)) by {
                lemma_push_contains(prefix, resolution, x);
                lemma_push_contains(before, resolution, x);
            }
        }
        index = index + 1;
    }
    assert(list@.subrange(0, list@.len() as int) == list@);
    kept
}

fn copy_resolutions(list: &Vec<Resolution>) -> (r: Vec<Resolution>)
    ensures
        r@ == list@,
{
    let mut copy: Vec<Resolution> = Vec::new();
    let mut index: usize = 0;
    while index < list.len()
        invariant
            index <= list@.len(),
            copy@ == list@.subrange(0, index as int),
        decreases list@.len() - index,
    {
        copy.push(list[index]);
        index = index + 1;
    }
    copy
}

impl DisplayPicker {
    /// Reloads the picker from the display's modes, its current resolution and
    /// its native one, and settles both saved profiles against them.
    pub fn load(
        &mut self,
        settings: &mut Settings,
        modes: Result<Vec<Resolution>, DisplayError>,
        current: Result<Resolution, DisplayError>,
        native: Option<Resolution>,
    ) -> (r: Result<(), DisplayError>)
        ensures
            r is Ok <==> (modes is Ok && current is Ok),
            modes matches Err(error) ==> r == Err::<(), DisplayError>(error),
            modes is Ok ==> (current matches Err(error) ==> r == Err::<(), DisplayError>(error)),
            r is Err ==> {
                &&& final(self).resolutions@.len() == 0
                &&& final(self).available_resolutions@.len() == 0
                &&& final(self).native is None
                &&& *final(settings) == *old(settings)
            },
            modes matches Ok(list) ==> (current matches Ok(current) ==> {
                let default = profile_default(current, native);
                &&& final(self).native == native
                &&& strictly_descending(final(self).available_resolutions@)
                &&& forall|x: Resolution| #[trigger]
                    final(self).available_resolutions@.contains(x) <==> ((list@.contains(x) || x
                        == current || native == Some(x)) && spec_resolution_is_allowed(x, native))
                &&& final(settings).desktop_resolution == Some(
                    settled_profile(old(settings).desktop_resolution, default, native),
                )
                &&& final(settings).gaming_resolution == Some(
                    settled_profile(old(settings).gaming_resolution, default, native),
                )
                &&& final(settings).features == old(settings).features
                &&& final(settings).active_mode_features == old(settings).active_mode_features
                &&& final(settings).tray_close_notice_acknowledged
                    == old(settings).tray_close_notice_acknowledged
                &&& strictly_descending(final(self).resolutions@)
                &&& forall|x: Resolution| #[trigger]
                    final(self).resolutions@.contains(x) <==> (
                    final(self).available_resolutions@.contains(x)
                        || final(settings).desktop_resolution == Some(x)
                        || final(settings).gaming_resolution == Some(x))
            }),
    {
        self.resolutions = Vec::new();
        self.available_resolutions = Vec::new();
        self.native = None;

        let listed = match modes {
            Ok(list) => list,
            Err(error) => return Err(error),
        };
        let current = match current {
            Ok(resolution) => resolution,
            Err(error) => return Err(error),
        };

        let mut resolutions = allowed_resolutions(&listed, native);
        add_allowed(&mut resolutions, current, native);
        match native {
            Some(resolution) => add_allowed(&mut resolutions, resolution, native),
            None => {},
        }
        let resolutions = deduplicate_resolutions(resolutions);

        let default = if resolution_is_allowed(current, native) {
            current
        } else {
            match native {
                Some(resolution) => resolution,
                None => {
                    if resolutions.len() > 0 {
                        resolutions[0]
                    } else {
                        return Err(DisplayError::NoResolutions);
                    }
                },
            }
        };

        self.available_resolutions = copy_resolutions(&resolutions);
        self.native = native;
        initialize_profile(&mut settings.desktop_resolution, default);
        initialize_profile(&mut settings.gaming_resolution, default);
        replace_disallowed_profile(&mut settings.desktop_resolution, default, native);
        replace_disallowed_profile(&mut settings.gaming_resolution, default, native);

        // Saved profiles stay listed while the display cannot switch to them
        // (under Remote Desktop, or with another monitor connected), so that a
        // save does not silently overwrite them.
        let mut listed_all = resolutions;
        match settings.desktop_resolution {
            Some(resolution) => add_allowed(&mut listed_all, resolution, native),
            None => {},
        }
        match settings.gaming_resolution {
            Some(resolution) => add_allowed(&mut listed_all, resolution, native),
            None => {},
        }
        self.resolutions = deduplicate_resolutions(listed_all);
        Ok(())
    }
}

} // verus!
