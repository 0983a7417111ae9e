//! Text conversions that std provides

use vstd::prelude::*;

verus! {

/// The lowercase form of `s`, as `str::to_lowercase` gives it
pub uninterp spec fn lowercase(s: Seq<char>) -> Seq<char>;

/// Calls `str::to_lowercase`. Its documentation: the lowercase equivalent of
/// the string, as a new `String`; it depends on the string alone.
#[verifier::external_body]
pub(crate) fn to_lowercase(s: &str) -> (r: String)
    ensures
        r@ == lowercase(s@),
{
    s.to_lowercase()
}

} // verus!
