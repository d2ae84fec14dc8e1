//! Parameters of the copy that places a built file among the artifacts.
use vstd::prelude::*;

use crate::runner::{program, Runner, StageView, Unprepared};
use crate::tasks::BuildTarget;
use crate::terminal::spec_single;

verus! {

/// What one copy runs against: the build target, the source and the
/// destination.
pub struct Params<'a, T: BuildTarget> {
    pub target: &'a T,
    pub src: String,
    pub dst: String,
}

impl<'a, T: BuildTarget> Params<'a, T> {
    pub fn builder(target: &'a T) -> (r: ParamsBuilder<'a, T>)
        ensures
            r.target == target,
            r.src is None,
            r.dst is None,
    {
        ParamsBuilder { target, src: None, dst: None }
    }

    /// The copy command: recursive exactly when the source is a
    /// directory, which the caller probes.
    pub fn define(&self, src_is_dir: bool) -> (r: Runner<Unprepared>)
        ensures
            r.wf(),
            src_is_dir ==> r.spec_chain() == spec_single(
                "cp"@,
                seq!["--no-target-directory"@, "--recursive"@, self.src@, self.dst@],
            ),
            !src_is_dir ==> r.spec_chain() == spec_single(
                "cp"@,
                seq!["--no-target-directory"@, self.src@, self.dst@],
            ),
    {
        let recursive: Option<&str> = if src_is_dir {
            Some("--recursive")
        } else {
            None
        };
        let r = program("cp".to_owned()).arg("--no-target-directory").push_arg(recursive).arg(
            self.src.as_str(),
        ).arg(self.dst.as_str());
        proof {
            if src_is_dir {
                assert(r.spec_chain() =~~= spec_single(
                    "cp"@,
                    seq!["--no-target-directory"@, "--recursive"@, self.src@, self.dst@],
                ));
            } else {
                assert(r.spec_chain() =~~= spec_single(
                    "cp"@,
                    seq!["--no-target-directory"@, self.src@, self.dst@],
                ));
            }
        }
        r
    }
}

/// The collected-so-far parameters of a copy.
pub struct ParamsBuilder<'a, T: BuildTarget> {
    pub target: &'a T,
    pub src: Option<String>,
    pub dst: Option<String>,
}

impl<'a, T: BuildTarget> ParamsBuilder<'a, T> {
    pub fn src(self, path: &str) -> (r: ParamsBuilder<'a, T>)
        ensures
            r.target == self.target,
            r.src matches Some(p) && p@ == path@,
            r.dst == self.dst,
    {
        ParamsBuilder { target: self.target, src: Some(path.to_owned()), dst: self.dst }
    }

    pub fn dst(self, path: &str) -> (r: ParamsBuilder<'a, T>)
        ensures
            r.target == self.target,
            r.src == self.src,
            r.dst matches Some(p) && p@ == path@,
    {
        ParamsBuilder { target: self.target, src: self.src, dst: Some(path.to_owned()) }
    }

    /// Assembles the parameters; source and destination are required.
    pub fn build(self) -> (r: Params<'a, T>)
        requires
            self.src is Some,
            self.dst is Some,
        ensures
            r.target == self.target,
            Some(r.src) == self.src,
            Some(r.dst) == self.dst,
    {
        match (self.src, self.dst) {
            (Some(src), Some(dst)) => Params { target: self.target, src, dst },
            _ => vstd::pervasive::unreached(),
        }
    }
}

} // verus!
