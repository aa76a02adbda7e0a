//! Small string helpers shared by the other modules.

use vstd::prelude::*;

verus! {

/// Appends one character to a `String` (`String::push`).
/// Trusted: `String::push` appends the character at the end of the string.
#[verifier::external_body]
pub(crate) fn push_char(s: &mut String, c: char)
    ensures
        final(s)@ == old(s)@.push(c),
{
    s.push(c);
}

/// Content equality of two string slices (`<str as PartialEq>::eq`).
/// Trusted: two `str` values compare equal exactly when they hold the same characters.
#[verifier::external_body]
pub(crate) fn str_equal(a: &str, b: &str) -> (r: bool)
    ensures
        r == (a@ == b@),
{
    a == b
}

} // verus!
