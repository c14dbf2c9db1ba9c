//! The `run` task: build and start the release binary.
use vstd::prelude::*;
use crate::tasks::{argument_texts, APP_PACKAGE};

verus! {

pub open spec fn spec_cargo_run_args() -> Seq<Seq<char>> {
    seq!["run"@, "--release"@, "--package"@, APP_PACKAGE@, "--bin"@, APP_PACKAGE@]
}

/// The arguments of the `cargo` command that runs the release binary.
pub fn cargo_run_args() -> (r: Vec<&'static str>)
    ensures
        argument_texts(r@) == spec_cargo_run_args(),
{
    let mut args: Vec<&'static str> = Vec::new();
    args.push("run");
    args.push("--release");
    args.push("--package");
    args.push(APP_PACKAGE);
    args.push("--bin");
    args.push(APP_PACKAGE);
    assert(argument_texts(args@) =~= spec_cargo_run_args());
    args
}

} // verus!
