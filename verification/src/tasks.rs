//! Build targets, runnable command definitions, and the artifact-size
//! report task.
use vstd::prelude::*;

use crate::runner::{program, Prepared, Runner, StageView, Unprepared};
use crate::terminal::{spec_single, TaskError};

verus! {

/// A cross-compilation target, named by its triple.
pub trait BuildTarget {
    /// The target triple this value stands for.
    spec fn spec_triple(&self) -> Seq<char>;

    /// The triple token on the wire.
    fn as_triple(&self) -> (r: &str)
        ensures
            r@ == self.spec_triple(),
    ;
}

/// The 32-bit ARM musl target.
#[derive(Debug, Clone, Copy, PartialEq, Eq)]
pub struct LinuxArmV7;

impl BuildTarget for LinuxArmV7 {
    open spec fn spec_triple(&self) -> Seq<char> {
        "armv7-unknown-linux-musleabihf"@
    }

    fn as_triple(&self) -> (r: &str)
        ensures
            r@ == self.spec_triple(),
    {
        "armv7-unknown-linux-musleabihf"
    }
}

/// The 64-bit x86 musl target.
#[derive(Debug, Clone, Copy, PartialEq, Eq)]
pub struct LinuxX86;

impl BuildTarget for LinuxX86 {
    open spec fn spec_triple(&self) -> Seq<char> {
        "x86_64-unknown-linux-musl"@
    }

    fn as_triple(&self) -> (r: &str)
        ensures
            r@ == self.spec_triple(),
    {
        "x86_64-unknown-linux-musl"
    }
}

/// A set of parameters that defines the command it runs.
pub trait Runnable {
    /// The command these parameters run.
    fn define(&self) -> (r: Result<Runner<Unprepared>, TaskError>);
}

/// The artifact-size report: what the report would run over a given
/// artifacts directory.
pub struct Task;

impl Task {
    /// The directory listing with depth, sizes and ordering fixed.
    pub fn runner(&self, artifacts_dir: &str) -> (r: Runner<Unprepared>)
        ensures
            r.wf(),
            r.spec_chain() == spec_single(
                "tree"@,
                seq![
                    "-L"@,
                    "2"@,
                    "-A"@,
                    "-c"@,
                    "--du"@,
                    "--si"@,
                    "--dirsfirst"@,
                    artifacts_dir@,
                ],
            ),
    {
        let r = program("tree".to_owned()).arg("-L").arg("2").arg("-A").arg("-c").arg("--du").arg(
            "--si",
        ).arg("--dirsfirst").arg(artifacts_dir);
        proof {
            assert(r.spec_chain() =~~= spec_single(
                "tree"@,
                seq![
                    "-L"@,
                    "2"@,
                    "-A"@,
                    "-c"@,
                    "--du"@,
                    "--si"@,
                    "--dirsfirst"@,
                    artifacts_dir@,
                ],
            ));
        }
        r
    }

    /// Validates the report command with the supplied check, which may
    /// probe for the program's presence.
    pub fn prepare<E, F: Fn(&Runner<Unprepared>) -> Result<(), E>>(
        &self,
        artifacts_dir: &str,
        f: F,
    ) -> (r: Result<Runner<Prepared>, E>)
        requires
            forall|x: &Runner<Unprepared>| #[trigger] call_requires(f, (x,)),
        ensures
            r matches Ok(p) ==> p.spec_chain() == spec_single(
                "tree"@,
                seq![
                    "-L"@,
                    "2"@,
                    "-A"@,
                    "-c"@,
                    "--du"@,
                    "--si"@,
                    "--dirsfirst"@,
                    artifacts_dir@,
                ],
            ),
    {
        self.runner(artifacts_dir).prepare(f)
    }
}

} // verus!
