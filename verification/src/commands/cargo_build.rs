//! Parameters of a target-specific compile.
use vstd::prelude::*;

use crate::tasks::BuildTarget;

verus! {

/// What one compile runs against: the build target.
pub struct Params<T: BuildTarget> {
    pub target: T,
}

impl<T: BuildTarget> Params<T> {
    /// Starts collecting parameters; the target must be supplied before
    /// `build`.
    pub fn builder() -> (r: ParamsBuilder<T>)
        ensures
            r.target is None,
    {
        ParamsBuilder { target: None }
    }
}

/// The collected-so-far parameters of a compile.
pub struct ParamsBuilder<T: BuildTarget> {
    pub target: Option<T>,
}

impl<T: BuildTarget> ParamsBuilder<T> {
    pub fn target(self, target: T) -> (r: ParamsBuilder<T>)
        ensures
            r.target == Some(target),
    {
        ParamsBuilder { target: Some(target) }
    }

    /// Assembles the parameters; the target is required.
    pub fn build(self) -> (r: Params<T>)
        requires
            self.target is Some,
        ensures
            Some(r.target) == self.target,
    {
        match self.target {
            Some(target) => Params { target },
            None => vstd::pervasive::unreached(),
        }
    }
}

} // verus!
