//! Conversions between `String` and `Vec<char>`.  The interpreter scans
//! and builds text as character vectors; these two functions cross over
//! to `String` at the library's edge.
use vstd::prelude::*;

verus! {

/// Relies on `str::chars`: the characters of a string slice, in order,
/// are exactly its view.
#[verifier::external_body]
pub(crate) fn chars_of(s: &str) -> (r: Vec<char>)
    ensures
        r@ == s@,
{
    s.chars().collect()
}

/// Relies on `String`'s `FromIterator<char>`: collecting characters in
/// order gives the string whose view is that character sequence.
#[verifier::external_body]
pub(crate) fn string_from_chars(v: &Vec<char>) -> (r: String)
    ensures
        r@ == v@,
{
    v.iter().collect()
}

} // verus!
