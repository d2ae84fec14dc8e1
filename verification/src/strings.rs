//! Small executable helpers over `String` used throughout the crate.
use vstd::prelude::*;

verus! {

/// Relies on std's `String::push`: appends exactly the one character to
/// the end of the string.
#[verifier::external_body]
pub fn push_char(s: &mut String, c: char)
    ensures
        final(s)@ == old(s)@.push(c),
{
    s.push(c)
}

/// Appends `suffix` to `s`.
pub fn push_str(s: &mut String, suffix: &str)
    ensures
        final(s)@ == old(s)@ + suffix@,
{
    s.append(suffix);
}

} // verus!
