//! Character-level string helpers.
//!
//! All comparisons run over decoded characters, so every fact proved about
//! them speaks directly about the `Seq<char>` view of the inputs.

use vstd::prelude::*;

verus! {

/// Equality of two string slices, by characters.
pub fn str_equal(a: &str, b: &str) -> (r: bool)
    ensures
        r == (a@ == b@),
{
    let na = a.unicode_len();
    let nb = b.unicode_len();
    if na != nb {
        return false;
    }
    let mut i: usize = 0;
    while i < na
        invariant
            0 <= i <= na,
            na == a@.len(),
            na == b@.len(),
            forall|j: int| 0 <= j < i ==> a@[j] == b@[j],
        decreases na - i,
    {
        if a.get_char(i) != b.get_char(i) {
            return false;
        }
        i = i + 1;
    }
    proof {
        assert(a@ =~= b@);
    }
    true
}

/// Does `s` begin with the two characters `c0`, `c1`?
pub fn starts_with2(s: &str, c0: char, c1: char) -> (r: bool)
    ensures
        r == (s@.len() >= 2 && s@[0] == c0 && s@[1] == c1),
{
    let n = s.unicode_len();
    n >= 2 && s.get_char(0) == c0 && s.get_char(1) == c1
}

} // verus!
