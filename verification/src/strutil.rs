//! Character-exact string comparison.
//!
//! Lookups throughout the engine key on group names and snapshot
//! identifiers; this comparison is verified against the string views, so
//! every contract above it can speak of sequence equality directly.

use vstd::prelude::*;
use vstd::string::StrSliceExecFns;

verus! {

/// Whether the two strings hold the same sequence of characters.
pub fn str_eq(a: &str, b: &str) -> (r: bool)
    ensures
        r == (a@ == b@),
{
    let la = a.unicode_len();
    let lb = b.unicode_len();
    if la != lb {
        proof {
            assert(a@ != b@);
        }
        return false;
    }
    let mut i: usize = 0;
    while i < la
        invariant
            la == a@.len(),
            la == b@.len(),
            i <= la,
            forall|j: int| 0 <= j < i ==> a@[j] == b@[j],
        decreases la - i,
    {
        if a.get_char(i) != b.get_char(i) {
            return false;
        }
        i += 1;
    }
    proof {
        assert(a@ =~= b@);
    }
    true
}

} // verus!
