//! The order of texts.

use std::cmp::Ordering;
use vstd::prelude::*;

verus! {

/// Lexicographic order of two texts by the code points of their characters.
pub open spec fn text_order(a: Seq<char>, b: Seq<char>) -> Ordering
    decreases a.len(),
{
    if a.len() == 0 {
        if b.len() == 0 {
            Ordering::Equal
        } else {
            Ordering::Less
        }
    } else if b.len() == 0 {
        Ordering::Greater
    } else if a[0] < b[0] {
        Ordering::Less
    } else if a[0] > b[0] {
        Ordering::Greater
    } else {
        text_order(a.drop_first(), b.drop_first())
    }
}

/// `str::cmp`: texts are ordered lexicographically by their bytes, which in
/// UTF-8 is the order of their code points.
#[verifier::external_body]
pub(crate) fn compare_text(a: &str, b: &str) -> (r: Ordering)
    ensures
        r == text_order(a@, b@),
{
    a.cmp(b)
}

} // verus!
