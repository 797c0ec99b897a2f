//! Case folding, delegated to the standard library.

use vstd::prelude::*;

verus! {

/// The lowercase form of a sequence of characters, as `str::to_lowercase`
/// computes it. It depends on the characters alone.
pub uninterp spec fn lower_of(s: Seq<char>) -> Seq<char>;

/// Relies on `str::to_lowercase`: the Unicode lowercase mapping of the
/// input, a function of the input characters alone; empty input gives
/// empty output.
#[verifier::external_body]
pub(crate) fn lowercase(s: &str) -> (r: String)
    ensures
        r@ == lower_of(s@),
        s@.len() == 0 ==> r@.len() == 0,
{
    s.to_lowercase()
}

} // verus!
