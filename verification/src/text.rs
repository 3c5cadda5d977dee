//! ASCII-case-insensitive keyword matching, used to parse role and order
//! status strings.

use vstd::prelude::*;

verus! {

/// `c` matches the lower-case keyword character `k`: either directly or as
/// its ASCII upper-case form.
pub open spec fn lower_matches(c: char, k: char) -> bool {
    c == k || ('A' as u32 <= c as u32 && c as u32 <= 'Z' as u32 && c as u32 + 32 == k as u32)
}

/// `s` equals the lower-case keyword `kw` up to ASCII case.
pub open spec fn lower_seq_matches(s: Seq<char>, kw: Seq<char>) -> bool {
    s.len() == kw.len() && forall|i: int| 0 <= i < s.len() ==> lower_matches(s[i], kw[i])
}

/// ASCII-case-insensitive comparison of `s` against the lower-case keyword
/// `kw`.
pub fn eq_ignore_ascii_case(s: &str, kw: &str) -> (r: bool)
    ensures
        r == lower_seq_matches(s@, kw@),
{
    let n = s.unicode_len();
    if n != kw.unicode_len() {
        return false;
    }
    let mut i: usize = 0;
    while i < n
        invariant
            n == s@.len(),
            n == kw@.len(),
            i <= n,
            forall|j: int| 0 <= j < i ==> lower_matches(s@[j], kw@[j]),
        decreases n - i,
    {
        let c = s.get_char(i);
        let k = kw.get_char(i);
        let cu = c as u32;
        let ku = k as u32;
        let hit = c == k || (65 <= cu && cu <= 90 && cu + 32 == ku);
        if !hit {
            return false;
        }
        i += 1;
    }
    true
}

/// Equality of two string slices, character by character.
pub fn str_eq(a: &str, b: &str) -> (r: bool)
    ensures
        r == (a@ == b@),
{
    let n = a.unicode_len();
    if n != b.unicode_len() {
        return false;
    }
    let mut i: usize = 0;
    while i < n
        invariant
            n == a@.len(),
            n == b@.len(),
            i <= n,
            forall|j: int| 0 <= j < i ==> a@[j] == b@[j],
        decreases n - i,
    {
        if a.get_char(i) != b.get_char(i) {
            return false;
        }
        i += 1;
    }
    proof {
        assert(a@ =~= b@);
    }
    true
}

} // verus!
