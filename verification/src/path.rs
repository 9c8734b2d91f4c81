//! Comparison of file paths, as `std::path::Path` compares them.
use vstd::prelude::*;

verus! {

/// Whether the paths written `a` and `b` are equal for `std::path::Path`,
/// which compares them component by component.
pub uninterp spec fn same_path(a: Seq<char>, b: Seq<char>) -> bool;

/// Compares `a` and `b` with `==` on `std::path::Path`. Claimed: the result is
/// `same_path` of the two texts, it does not depend on their order, and equal
/// texts are equal paths (the comparison of components is reflexive). How
/// components are split is left to the name.
#[verifier::external_body]
pub(crate) fn paths_equal(a: &str, b: &str) -> (r: bool)
    ensures
        r == same_path(a@, b@),
        r == same_path(b@, a@),
        a@ == b@ ==> r,
{
    std::path::Path::new(a) == std::path::Path::new(b)
}

} // verus!
