//! Strings compared as sequences of characters.

use vstd::prelude::*;
use vstd::std_specs::iter::IteratorSpec;

verus! {

/// Whether two strings hold the same characters.
pub fn same_text(a: &str, b: &str) -> (same: bool)
    ensures
        same == (a@ == b@),
{
    broadcast use vstd::string::group_string_axioms;

    let mut left = a.chars();
    let mut right = b.chars();
    let ghost mut seen: Seq<char> = Seq::empty();
    loop
        invariant
            a@ == seen + left.remaining(),
            b@ == seen + right.remaining(),
            left.decrease() is Some,
        decreases left.decrease()->0,
    {
        let x = left.next();
        let y = right.next();
        match (x, y) {
            (None, None) => {
                return true;
            },
            (Some(p), Some(q)) => {
                if p != q {
                    assert(a@[seen.len() as int] == p);
                    assert(b@[seen.len() as int] == q);
                    return false;
                }
                proof {
                    seen = seen.push(p);
                }
                assert(a@ =~= seen + left.remaining());
                assert(b@ =~= seen + right.remaining());
            },
            _ => {
                assert(a@.len() != b@.len());
                return false;
            },
        }
    }
}

} // verus!
