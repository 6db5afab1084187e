//! Text functions of the standard library.

use vstd::prelude::*;

verus! {

/// The text that `str::trim` leaves of a text.
pub uninterp spec fn trimmed(s: Seq<char>) -> Seq<char>;

/// Calls `str::trim`, which drops the white space at both ends of a text.
/// The contract only gives the result a name.
#[verifier::external_body]
pub(crate) fn trim_text(s: &str) -> (t: String)
    ensures
        t@ == trimmed(s@),
{
    s.trim().to_string()
}

} // verus!
