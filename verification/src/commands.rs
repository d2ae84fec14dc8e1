//! Parameter builders of the build commands: compile, strip, copy.
use vstd::prelude::*;

pub mod cargo_build;
pub mod copy_as_artifact;
pub mod strip;

verus! {

/// The pairing of a build target with the parameters derived from it:
/// a marker carrying both types through the task plumbing.
pub struct Action<TARGET, PARAMS> {
    marker: core::marker::PhantomData<(TARGET, PARAMS)>,
}

impl<T, P> Action<T, P> {
    /// Derives the parameters of a target with the supplied translation
    /// and pairs them with the action marker.
    pub fn from<M, F: Fn(T, &M) -> P>(target: T, matches: &M, to_params: F) -> (r: (
        Action<T, P>,
        P,
    ))
        requires
            call_requires(to_params, (target, matches)),
        ensures
            call_ensures(to_params, (target, matches), r.1),
    {
        let params = to_params(target, matches);
        (Action { marker: core::marker::PhantomData }, params)
    }
}

} // verus!
