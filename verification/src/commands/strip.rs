//! Parameters of a symbol strip over one built file.
use vstd::prelude::*;

use crate::tasks::BuildTarget;

verus! {

/// What one strip runs against: the build target and the file.
pub struct Params<'a, T: BuildTarget> {
    pub target: &'a T,
    pub file_path: String,
}

impl<'a, T: BuildTarget> Params<'a, T> {
    /// Starts collecting parameters for a target; the file path must be
    /// supplied before `build`.
    pub fn builder(target: &'a T) -> (r: ParamsBuilder<'a, T>)
        ensures
            r.target == target,
            r.file_path is None,
    {
        ParamsBuilder { target, file_path: None }
    }
}

/// The collected-so-far parameters of a strip.
pub struct ParamsBuilder<'a, T: BuildTarget> {
    pub target: &'a T,
    pub file_path: Option<String>,
}

impl<'a, T: BuildTarget> ParamsBuilder<'a, T> {
    pub fn file_path(self, path: &str) -> (r: ParamsBuilder<'a, T>)
        ensures
            r.target == self.target,
            r.file_path matches Some(p) && p@ == path@,
    {
        ParamsBuilder { target: self.target, file_path: Some(path.to_owned()) }
    }

    /// Assembles the parameters; the file path is required.
    pub fn build(self) -> (r: Params<'a, T>)
        requires
            self.file_path is Some,
        ensures
            r.target == self.target,
            Some(r.file_path) == self.file_path,
    {
        match self.file_path {
            Some(file_path) => Params { target: self.target, file_path },
            None => vstd::pervasive::unreached(),
        }
    }
}

} // verus!
