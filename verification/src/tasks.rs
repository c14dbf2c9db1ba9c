//! Build-task logic: the Cargo invocation that runs the application, and the
//! checks and container formats behind the generated artwork.
use vstd::prelude::*;

pub mod run;
pub mod artwork;
pub mod icons;

verus! {

/// The package and binary name of the desktop application.
pub const APP_PACKAGE: &'static str = "win11-borderless-gaming-desktop";

/// Every optional desktop action, as a Cargo feature list.
pub const ACTION_FEATURES: &'static str = "desktop-icons,desktop-background,minimize-all-windows";

/// The text of each argument.
pub open spec fn argument_texts(args: Seq<&'static str>) -> Seq<Seq<char>> {
    args.map_values(|arg: &'static str| arg@)
}

/// Runs the release binary, with every feature for the window, or with the
/// actions alone when there is no window.
pub open spec fn spec_cargo_run_args(no_gui: bool) -> Seq<Seq<char>> {
    seq!["run"@, "--release"@, "--package"@, APP_PACKAGE@, "--bin"@, APP_PACKAGE@] + if no_gui {
        seq!["--no-default-features"@, "--features"@, ACTION_FEATURES@]
    } else {
        seq!["--all-features"@]
    }
}

/// The arguments of the `cargo` command that builds and runs the application.
pub fn cargo_run_args(no_gui: bool) -> (r: Vec<&'static str>)
    ensures
        argument_texts(r@) == spec_cargo_run_args(no_gui),
{
    let mut args: Vec<&'static str> = Vec::new();
    args.push("run");
    args.push("--release");
    args.push("--package");
    args.push(APP_PACKAGE);
    args.push("--bin");
    args.push(APP_PACKAGE);
    if no_gui {
        args.push("--no-default-features");
        args.push("--features");
        args.push(ACTION_FEATURES);
    } else {
        args.push("--all-features");
    }
    assert(argument_texts(args@) =~= spec_cargo_run_args(no_gui));
    args
}

} // verus!
