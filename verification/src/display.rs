//! Primary-display resolutions: ordering, deduplication, and the results of
//! asking Windows to read or change the display mode.
use vstd::prelude::*;
use vstd::string::StringExecFns;
use crate::text::{decimal, push_decimal, push_signed_decimal, signed_decimal};

verus! {

/// A display resolution in physical pixels.
#[derive(Clone, Copy, Debug, PartialEq, Eq, Structural, Hash, PartialOrd, Ord)]
pub struct Resolution {
    pub width: u32,
    pub height: u32,
}

impl Resolution {
    pub fn new(width: u32, height: u32) -> (r: Self)
        ensures
            r.width == width,
            r.height == height,
    {
        Resolution { width, height }
    }

    /// The picker label, `"<width> × <height>"`.
    pub fn to_string(&self) -> (r: String)
        ensures
            r@ == resolution_label(*self),
    {
        let mut text = String::new();
        push_decimal(&mut text, self.width as u64);
        proof {
            reveal_strlit(" × ");
        }
        text.append(" × ");
        push_decimal(&mut text, self.height as u64);
        text
    }
}

pub open spec fn resolution_label(resolution: Resolution) -> Seq<char> {
    decimal(resolution.width as nat) + " × "@ + decimal(resolution.height as nat)
}

/// The result of asking Windows to apply a supported resolution.
#[derive(Clone, Copy, Debug, PartialEq, Eq, Structural)]
pub enum ChangeOutcome {
    Applied,
    RestartRequired,
}

/// A failure reported by the display-settings change call.
#[derive(Clone, Copy, Debug, PartialEq, Eq, Structural)]
pub enum ChangeError {
    BadDualView,
    BadFlags,
    BadMode,
    BadParameter,
    Failed,
    NotUpdated,
    Unknown(i32),
}

/// An error encountered while reading or changing the primary display mode.
#[derive(Clone, Copy, Debug, PartialEq, Eq, Structural)]
pub enum DisplayError {
    NoResolutions,
    CurrentResolutionUnavailable,
    NativeResolutionUnavailable,
    DisplayConfigurationFailed(u32),
    ValidationFailed(ChangeError),
    ApplyFailed(ChangeError),
}

/// Result codes of the Windows display-settings change call.
pub const DISP_CHANGE_SUCCESSFUL: i32 = 0;
pub const DISP_CHANGE_RESTART: i32 = 1;
pub const DISP_CHANGE_FAILED: i32 = -1;
pub const DISP_CHANGE_BADMODE: i32 = -2;
pub const DISP_CHANGE_NOTUPDATED: i32 = -3;
pub const DISP_CHANGE_BADFLAGS: i32 = -4;
pub const DISP_CHANGE_BADPARAM: i32 = -5;
pub const DISP_CHANGE_BADDUALVIEW: i32 = -6;

pub open spec fn change_error_message(error: ChangeError) -> Seq<char> {
    match error {
        ChangeError::BadDualView => "the display driver does not support this change in DualView mode"@,
        ChangeError::BadFlags => "an invalid set of display-change flags was supplied"@,
        ChangeError::BadMode => "the requested display mode is not supported"@,
        ChangeError::BadParameter => "an invalid display parameter was supplied"@,
        ChangeError::Failed => "the display driver rejected the change"@,
        ChangeError::NotUpdated => "Windows did not update the display mode"@,
        ChangeError::Unknown(code) => "unknown display-change result ("@ + signed_decimal(
            code as int,
        ) + ")"@,
    }
}

pub open spec fn display_error_message(error: DisplayError) -> Seq<char> {
    match error {
        DisplayError::NoResolutions => "Windows reported no primary-display modes"@,
        DisplayError::CurrentResolutionUnavailable => "Windows could not read the primary display's current mode"@,
        DisplayError::NativeResolutionUnavailable => "Windows could not identify the primary display's preferred mode"@,
        DisplayError::DisplayConfigurationFailed(code) => "Windows display configuration query failed ("@
            + decimal(code as nat) + ")"@,
        DisplayError::ValidationFailed(inner) => "the requested resolution failed validation: "@
            + change_error_message(inner),
        DisplayError::ApplyFailed(inner) => "Windows could not apply the requested resolution: "@
            + change_error_message(inner),
    }
}

impl ChangeError {
    /// The user-facing description of the failure.
    pub fn to_string(&self) -> (r: String)
        ensures
            r@ == change_error_message(*self),
    {
        let mut text = String::new();
        self.push_message(&mut text);
        text
    }

    fn push_message(&self, text: &mut String)
        ensures
            final(text)@ == old(text)@ + change_error_message(*self),
    {
        let message = match self {
            ChangeError::BadDualView => "the display driver does not support this change in DualView mode",
            ChangeError::BadFlags => "an invalid set of display-change flags was supplied",
            ChangeError::BadMode => "the requested display mode is not supported",
            ChangeError::BadParameter => "an invalid display parameter was supplied",
            ChangeError::Failed => "the display driver rejected the change",
            ChangeError::NotUpdated => "Windows did not update the display mode",
            ChangeError::Unknown(code) => {
                text.append("unknown display-change result (");
                push_signed_decimal(text, *code as i64);
                text.append(")");
                proof {
                    assert(text@ =~= old(text)@ + change_error_message(*self));
                }
                return;
            },
        };
        text.append(message);
    }
}

impl DisplayError {
    /// The user-facing description of the failure.
    pub fn to_string(&self) -> (r: String)
        ensures
            r@ == display_error_message(*self),
    {
        let mut text = String::new();
        match self {
            DisplayError::NoResolutions => text.append("Windows reported no primary-display modes"),
            DisplayError::CurrentResolutionUnavailable => text.append(
                "Windows could not read the primary display's current mode",
            ),
            DisplayError::NativeResolutionUnavailable => text.append(
                "Windows could not identify the primary display's preferred mode",
            ),
            DisplayError::DisplayConfigurationFailed(code) => {
                text.append("Windows display configuration query failed (");
                push_decimal(&mut text, *code as u64);
                text.append(")");
            },
            DisplayError::ValidationFailed(inner) => {
                text.append("the requested resolution failed validation: ");
                inner.push_message(&mut text);
            },
            DisplayError::ApplyFailed(inner) => {
                text.append("Windows could not apply the requested resolution: ");
                inner.push_message(&mut text);
            },
        }
        proof {
            assert(text@ =~= display_error_message(*self));
        }
        text
    }

    /// The underlying display-change failure, when there is one.
    pub fn source(&self) -> (r: Option<ChangeError>)
        ensures
            r == match *self {
                DisplayError::ValidationFailed(inner) => Some(inner),
                DisplayError::ApplyFailed(inner) => Some(inner),
                _ => None,
            },
    {
        match self {
            DisplayError::ValidationFailed(inner) => Some(*inner),
            DisplayError::ApplyFailed(inner) => Some(*inner),
            _ => None,
        }
    }
}

pub open spec fn spec_map_change_result(result: i32) -> Result<ChangeOutcome, ChangeError> {
    if result == 0 {
        Ok(ChangeOutcome::Applied)
    } else if result == 1 {
        Ok(ChangeOutcome::RestartRequired)
    } else if result == -6 {
        Err(ChangeError::BadDualView)
    } else if result == -4 {
        Err(ChangeError::BadFlags)
    } else if result == -2 {
        Err(ChangeError::BadMode)
    } else if result == -5 {
        Err(ChangeError::BadParameter)
    } else if result == -1 {
        Err(ChangeError::Failed)
    } else if result == -3 {
        Err(ChangeError::NotUpdated)
    } else {
        Err(ChangeError::Unknown(result))
    }
}

/// Classifies a display-settings change result code.
pub fn map_change_result(result: i32) -> (r: Result<ChangeOutcome, ChangeError>)
    ensures
        r == spec_map_change_result(result),
{
    match result {
        DISP_CHANGE_SUCCESSFUL => Ok(ChangeOutcome::Applied),
        DISP_CHANGE_RESTART => Ok(ChangeOutcome::RestartRequired),
        DISP_CHANGE_BADDUALVIEW => Err(ChangeError::BadDualView),
        DISP_CHANGE_BADFLAGS => Err(ChangeError::BadFlags),
        DISP_CHANGE_BADMODE => Err(ChangeError::BadMode),
        DISP_CHANGE_BADPARAM => Err(ChangeError::BadParameter),
        DISP_CHANGE_FAILED => Err(ChangeError::Failed),
        DISP_CHANGE_NOTUPDATED => Err(ChangeError::NotUpdated),
        other => Err(ChangeError::Unknown(other)),
    }
}

} // verus!

verus! {

/// `a` is listed no later than `b`: taller first, then wider first.
pub open spec fn ranks_at_least(a: Resolution, b: Resolution) -> bool {
    a.height > b.height || (a.height == b.height && a.width >= b.width)
}

/// `a` is listed strictly before `b`.
pub open spec fn ranks_above(a: Resolution, b: Resolution) -> bool {
    a.height > b.height || (a.height == b.height && a.width > b.width)
}

/// Ordered by height, then width, both largest first.
pub open spec fn sorted_descending(list: Seq<Resolution>) -> bool {
    forall|i: int, j: int| 0 <= i < j < list.len() ==> ranks_at_least(#[trigger] list[i], #[trigger] list[j])
}

/// Ordered by height, then width, both largest first, with no resolution twice.
pub open spec fn strictly_descending(list: Seq<Resolution>) -> bool {
    forall|i: int, j: int| 0 <= i < j < list.len() ==> ranks_above(#[trigger] list[i], #[trigger] list[j])
}

/// Both lists hold the same resolutions, ignoring order and repetition.
pub open spec fn same_resolutions(a: Seq<Resolution>, b: Seq<Resolution>) -> bool {
    forall|r: Resolution| #[trigger] a.contains(r) <==> b.contains(r)
}

fn ranks_above_exec(a: Resolution, b: Resolution) -> (r: bool)
    ensures
        r == ranks_above(a, b),
{
    a.height > b.height || (a.height == b.height && a.width > b.width)
}

/// Sorts by height, then width, both largest first.
pub fn sort_resolutions_descending(resolutions: &mut Vec<Resolution>)
    ensures
        final(resolutions)@.to_multiset() == old(resolutions)@.to_multiset(),
        sorted_descending(final(resolutions)@),
{
    let mut sorted: Vec<Resolution> = Vec::new();
    proof {
        vstd::seq_lib::to_multiset_len(sorted@);
        vstd::seq_lib::to_multiset_len(resolutions@.subrange(0, 0));
        assert(sorted@.to_multiset() =~= resolutions@.subrange(0, 0).to_multiset());
    }
    let mut index: usize = 0;
    while index < resolutions.len()
        invariant
            resolutions@ == old(resolutions)@,
            index <= resolutions@.len(),
            sorted@.to_multiset() == resolutions@.subrange(0, index as int).to_multiset(),
            sorted_descending(sorted@),
        decreases resolutions@.len() - index,
    {
        let resolution = resolutions[index];
        let mut position: usize = 0;
        while position < sorted.len() && ranks_above_exec(sorted[position], resolution)
            invariant
                position <= sorted@.len(),
                forall|k: int| 0 <= k < position ==> ranks_above(#[trigger] sorted@[k], resolution),
            decreases sorted@.len() - position,
        {
            position = position + 1;
        }
        let ghost before = sorted@;
        sorted.insert(position, resolution);
        proof {
            assert(resolutions@.subrange(0, index + 1) == resolutions@.subrange(0, index as int).push(
                resolution,
            ));
            vstd::seq_lib::to_multiset_build(resolutions@.subrange(0, index as int), resolution);
            vstd::seq_lib::to_multiset_insert(before, position as int, resolution);
            assert(sorted@ == before.insert(position as int, resolution));
            assert forall|i: int, j: int| 0 <= i < j < sorted@.len() implies ranks_at_least(
                #[trigger] sorted@[i],
                #[trigger] sorted@[j],
            ) by {
                if position < before.len() {
                    assert(!ranks_above(before[position as int], resolution));
                }
                if j < position {
                } else if j == position {
                    assert(ranks_above(sorted@[i], resolution));
                } else if i < position {
                    assert(ranks_above(before[i], resolution));
                    assert(ranks_at_least(before[position as int], before[j - 1]));
                } else if i == position {
                    assert(ranks_at_least(before[position as int], before[j - 1]));
                } else {
                    assert(ranks_at_least(before[i - 1], before[j - 1]));
                }
            }
        }
        index = index + 1;
    }
    proof {
        assert(resolutions@.subrange(0, resolutions@.len() as int) == resolutions@);
    }
    *resolutions = sorted;
}

/// Removes consecutive repeats from a sorted list.
fn dedup_resolutions(resolutions: &mut Vec<Resolution>)
    requires
        sorted_descending(old(resolutions)@),
    ensures
        strictly_descending(final(resolutions)@),
        same_resolutions(final(resolutions)@, old(resolutions)@),
{
    let mut unique: Vec<Resolution> = Vec::new();
    let mut index: usize = 0;
    while index < resolutions.len()
        invariant
            resolutions@ == old(resolutions)@,
            sorted_descending(resolutions@),
            index <= resolutions@.len(),
            strictly_descending(unique@),
            same_resolutions(unique@, resolutions@.subrange(0, index as int)),
            index > 0 ==> unique@.len() > 0 && unique@.last() == resolutions@[index - 1],
            index == 0 ==> unique@.len() == 0,
        decreases resolutions@.len() - index,
    {
        let resolution = resolutions[index];
        let ghost prefix = resolutions@.subrange(0, index as int);
        let ghost next_prefix = resolutions@.subrange(0, index + 1);
        proof {
            assert(next_prefix == prefix.push(resolution));
        }
        if unique.len() == 0 || unique[unique.len() - 1] != resolution {
            let ghost before = unique@;
            unique.push(resolution);
            proof {
                if index > 0 {
                    assert(ranks_at_least(resolutions@[index - 1], resolution));
                    assert(ranks_above(before.last(), resolution));
                }
                assert forall|i: int, j: int| 0 <= i < j < unique@.len() implies ranks_above(
                    #[trigger] unique@[i],
                    #[trigger] unique@[j],
                ) by {
                    if j == unique@.len() - 1 && i < j {
                        assert(ranks_at_least(before[i], before.last()));
                    }
                }
                assert forall|r: Resolution| #[trigger] unique@.contains(r) <==> next_prefix.contains(r) by {
                    lemma_push_contains(before, resolution, r);
                    lemma_push_contains(prefix, resolution, r);
                }
            }
        } else {
            proof {
                assert(unique@[unique@.len() - 1] == resolution);
                assert(unique@.contains(resolution));
                assert(prefix.contains(resolution));
                assert forall|r: Resolution| #[trigger] next_prefix.contains(r) <==> prefix.contains(r) by {
                    if next_prefix.contains(r) {
                        let k = choose|k: int| 0 <= k < next_prefix.len() && next_prefix[k] == r;
                        if k < prefix.len() {
                            assert(prefix[k] == r);
                        }
                    }
                    if prefix.contains(r) {
                        let k = choose|k: int| 0 <= k < prefix.len() && prefix[k] == r;
                        assert(next_prefix[k] == r);
                    }
                }
            }
        }
        index = index + 1;
    }
    proof {
        assert(resolutions@.subrange(0, resolutions@.len() as int) == resolutions@);
    }
    *resolutions = unique;
}

pub(crate) proof fn lemma_push_contains(list: Seq<Resolution>, last: Resolution, r: Resolution)
    ensures
        list.push(last).contains(r) <==> (list.contains(r) || r == last),
{
    let pushed = list.push(last);
    if pushed.contains(r) {
        let k = choose|k: int| 0 <= k < pushed.len() && pushed[k] == r;
        if k < list.len() {
            assert(list[k] == r);
        }
    }
    if list.contains(r) {
        let k = choose|k: int| 0 <= k < list.len() && list[k] == r;
        assert(pushed[k] == r);
    }
    if r == last {
        assert(pushed[list.len() as int] == r);
    }
}

/// Holds the same resolutions as `a` when both have the same multiset of elements.
proof fn lemma_same_multiset_same_resolutions(a: Seq<Resolution>, b: Seq<Resolution>)
    requires
        a.to_multiset() == b.to_multiset(),
    ensures
        same_resolutions(a, b),
{
    broadcast use vstd::seq_lib::to_multiset_contains;

    assert forall|r: Resolution| #[trigger] a.contains(r) <==> b.contains(r) by {
        vstd::seq_lib::to_multiset_contains(a, r);
        vstd::seq_lib::to_multiset_contains(b, r);
    }
}

/// The distinct resolutions of `resolutions`, ordered by height then width,
/// both largest first.
pub fn deduplicate_resolutions(resolutions: Vec<Resolution>) -> (r: Vec<Resolution>)
    ensures
        strictly_descending(r@),
        same_resolutions(r@, resolutions@),
{
    let mut list = resolutions;
    sort_resolutions_descending(&mut list);
    proof {
        lemma_same_multiset_same_resolutions(list@, resolutions@);
    }
    dedup_resolutions(&mut list);
    list
}

} // verus!

verus! {

/// The unique resolutions among the primary display's enumerated modes,
/// ordered by height then width, both largest first.
pub fn primary_resolutions(modes: Vec<Resolution>) -> (r: Result<Vec<Resolution>, DisplayError>)
    ensures
        r is Ok <==> modes@.len() > 0,
        r matches Ok(list) ==> list@.len() > 0 && strictly_descending(list@) && same_resolutions(
            list@,
            modes@,
        ),
        r matches Err(error) ==> error == DisplayError::NoResolutions,
{
    let ghost original = modes@;
    let resolutions = deduplicate_resolutions(modes);
    assert(same_resolutions(resolutions@, original));
    if resolutions.len() == 0 {
        proof {
            if original.len() > 0 {
                assert(original.contains(original[0]));
                assert(resolutions@.contains(original[0]));
            }
        }
        Err(DisplayError::NoResolutions)
    } else {
        proof {
            assert(resolutions@.contains(resolutions@[0]));
            assert(modes@.contains(resolutions@[0]));
            assert(modes@.len() > 0);
            assert(strictly_descending(resolutions@));
            assert(same_resolutions(resolutions@, modes@));
        }
        Ok(resolutions)
    }
}

/// The current resolution of the primary display, from its current mode when
/// Windows could read it.
pub fn primary_resolution(current_mode: Option<Resolution>) -> (r: Result<Resolution, DisplayError>)
    ensures
        match current_mode {
            Some(mode) => r == Ok::<Resolution, DisplayError>(mode),
            None => r == Err::<Resolution, DisplayError>(DisplayError::CurrentResolutionUnavailable),
        },
{
    match current_mode {
        Some(mode) => Ok(Resolution::new(mode.width, mode.height)),
        None => Err(DisplayError::CurrentResolutionUnavailable),
    }
}

/// The preferred mode Windows reports for the primary monitor's target.
#[derive(Clone, Copy, Debug, PartialEq, Eq, Structural)]
pub struct PreferredMode {
    pub width: u32,
    pub height: u32,
    /// Whether the target is rotated by 90 or 270 degrees.
    pub rotated: bool,
}

pub open spec fn spec_primary_native_resolution(preferred: Result<PreferredMode, DisplayError>) -> Result<
    Resolution,
    DisplayError,
> {
    match preferred {
        Err(error) => Err(error),
        Ok(mode) => if mode.width == 0 || mode.height == 0 {
            Err(DisplayError::NativeResolutionUnavailable)
        } else if mode.rotated {
            Ok(Resolution { width: mode.height, height: mode.width })
        } else {
            Ok(Resolution { width: mode.width, height: mode.height })
        },
    }
}

/// The native resolution of the primary monitor in desktop orientation.
pub fn primary_native_resolution(preferred: Result<PreferredMode, DisplayError>) -> (r: Result<
    Resolution,
    DisplayError,
>)
    ensures
        r == spec_primary_native_resolution(preferred),
{
    let mode = match preferred {
        Ok(mode) => mode,
        Err(error) => return Err(error),
    };
    if mode.width == 0 || mode.height == 0 {
        return Err(DisplayError::NativeResolutionUnavailable);
    }
    let (width, height) = if mode.rotated {
        (mode.height, mode.width)
    } else {
        (mode.width, mode.height)
    };
    Ok(Resolution::new(width, height))
}

/// Outcome of the non-mutating validation call that precedes a resolution change:
/// any failure stops the change.
pub fn validation_result(code: i32) -> (r: Result<ChangeOutcome, DisplayError>)
    ensures
        r == match spec_map_change_result(code) {
            Ok(outcome) => Ok(outcome),
            Err(error) => Err(DisplayError::ValidationFailed(error)),
        },
{
    match map_change_result(code) {
        Ok(outcome) => Ok(outcome),
        Err(error) => Err(DisplayError::ValidationFailed(error)),
    }
}

/// Outcome of the call that applies a validated resolution.
pub fn change_result(code: i32) -> (r: Result<ChangeOutcome, DisplayError>)
    ensures
        r == match spec_map_change_result(code) {
            Ok(outcome) => Ok(outcome),
            Err(error) => Err(DisplayError::ApplyFailed(error)),
        },
{
    match map_change_result(code) {
        Ok(outcome) => Ok(outcome),
        Err(error) => Err(DisplayError::ApplyFailed(error)),
    }
}

} // verus!
