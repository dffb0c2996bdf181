//! Conversions between strings and their character sequences.
//!
//! The text pipeline works on `Vec<char>`, whose view matches the view of the
//! originating string, so every transformation can be stated over `Seq<char>`.

use vstd::prelude::*;

verus! {

/// Relies on `str::chars` (std): the iterator yields exactly the characters
/// of the string, in order; collecting it gives them as a vector.
#[verifier::external_body]
pub(crate) fn chars_of(s: &str) -> (r: Vec<char>)
    ensures
        r@ == s@,
{
    s.chars().collect()
}

/// Relies on `String`'s `FromIterator<char>` impl (std): collecting characters
/// builds the string holding exactly those characters, in order.
#[verifier::external_body]
pub(crate) fn string_of_chars(v: &Vec<char>) -> (r: String)
    ensures
        r@ == v@,
{
    v.iter().collect()
}

} // verus!
