//! Conversions between `String`/`&str` and vectors of characters.
//!
//! All of the library's textual logic is verified over `Vec<char>` and
//! `Seq<char>`; these two functions carry values across the boundary to the
//! standard string types, which vstd does not give builders for.

use vstd::prelude::*;

verus! {

/// Relies on `str::chars` collected into a `Vec`: the characters of the
/// slice, in order, which is exactly the view of the slice.
#[verifier::external_body]
pub fn chars_of(s: &str) -> (v: Vec<char>)
    ensures
        v@ == s@,
{
    s.chars().collect()
}

/// Relies on `String::from_iter` over the vector's characters: a string whose
/// view is exactly the vector's characters, in order.
#[verifier::external_body]
pub fn string_from_chars(v: &Vec<char>) -> (s: String)
    ensures
        s@ == v@,
{
    String::from_iter(v.iter().copied())
}

} // verus!
