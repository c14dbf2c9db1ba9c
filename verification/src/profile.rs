//! Moving the primary display to a profile's resolution: what to do after
//! each answer from Windows, and the message when it fails.
use vstd::prelude::*;
use vstd::string::StringExecFns;
use crate::display::{
    display_error_message, resolution_label, ChangeOutcome, DisplayError, Resolution,
};

verus! {

/// The next step of a profile change.
#[derive(Debug)]
pub enum ProfileStep {
    /// The display shows the target resolution.
    Done,
    /// Ask Windows to switch to the target resolution.
    Apply,
    /// Read the resolution back to confirm the switch.
    Verify,
    /// Stop; the message says why.
    Failed(String),
}

fn append_label(text: &mut String, resolution: Resolution)
    ensures
        final(text)@ == old(text)@ + resolution_label(resolution),
{
    let label = resolution.to_string();
    text.append(label.as_str());
}

fn append_error(text: &mut String, error: DisplayError)
    ensures
        final(text)@ == old(text)@ + display_error_message(error),
{
    let message = error.to_string();
    text.append(message.as_str());
}

/// After reading the current resolution: nothing to do when it already is
/// the target.
pub fn after_reading_current(target: Resolution, current: Result<Resolution, DisplayError>) -> (r:
    ProfileStep)
    ensures
        match current {
            Err(error) => r matches ProfileStep::Failed(message) && message@
                == "Could not read the current resolution: "@ + display_error_message(error),
            Ok(resolution) => if resolution == target {
                r is Done
            } else {
                r is Apply
            },
        },
{
    match current {
        Err(error) => {
            let mut message = String::from_str("Could not read the current resolution: ");
            append_error(&mut message, error);
            ProfileStep::Failed(message)
        },
        Ok(resolution) => {
            if resolution == target {
                ProfileStep::Done
            } else {
                ProfileStep::Apply
            }
        },
    }
}

/// After asking Windows to switch: a change that needs a restart is a failure,
/// an applied one is read back.
pub fn after_applying(target: Resolution, outcome: Result<ChangeOutcome, DisplayError>) -> (r:
    ProfileStep)
    ensures
        match outcome {
            Ok(ChangeOutcome::Applied) => r is Verify,
            Ok(ChangeOutcome::RestartRequired) => r matches ProfileStep::Failed(message)
                && message@ == "Windows accepted "@ + resolution_label(target)
                + ", but a restart is required before it can be used."@,
            Err(error) => r matches ProfileStep::Failed(message) && message@ == "Could not apply "@
                + resolution_label(target) + ": "@ + display_error_message(error),
        },
{
    match outcome {
        Ok(ChangeOutcome::Applied) => ProfileStep::Verify,
        Ok(ChangeOutcome::RestartRequired) => {
            let mut message = String::from_str("Windows accepted ");
            append_label(&mut message, target);
            message.append(", but a restart is required before it can be used.");
            ProfileStep::Failed(message)
        },
        Err(error) => {
            let mut message = String::from_str("Could not apply ");
            append_label(&mut message, target);
            message.append(": ");
            append_error(&mut message, error);
            ProfileStep::Failed(message)
        },
    }
}

/// After reading the resolution back: done only when Windows kept the target.
pub fn after_verifying(target: Resolution, applied: Result<Resolution, DisplayError>) -> (r:
    ProfileStep)
    ensures
        match applied {
            Err(error) => r matches ProfileStep::Failed(message) && message@ == "Could not verify "@
                + resolution_label(target) + ": "@ + display_error_message(error),
            Ok(resolution) => if resolution == target {
                r is Done
            } else {
                r matches ProfileStep::Failed(message) && message@
                    == "Windows kept the primary monitor at "@ + resolution_label(resolution)
                    + " instead of "@ + resolution_label(target) + "."@
            },
        },
{
    match applied {
        Err(error) => {
            let mut message = String::from_str("Could not verify ");
            append_label(&mut message, target);
            message.append(": ");
            append_error(&mut message, error);
            ProfileStep::Failed(message)
        },
        Ok(resolution) => {
            if resolution == target {
                ProfileStep::Done
            } else {
                let mut message = String::from_str("Windows kept the primary monitor at ");
                append_label(&mut message, resolution);
                message.append(" instead of ");
                append_label(&mut message, target);
                message.append(".");
                ProfileStep::Failed(message)
            }
        },
    }
}

} // verus!
