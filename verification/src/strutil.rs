//! Small verified helpers over strings.

use vstd::prelude::*;
use vstd::string::StrSliceExecFns;

verus! {

/// `p` is a prefix of `s`.
pub open spec fn starts_with(s: Seq<char>, p: Seq<char>) -> bool {
    s.len() >= p.len() && s.subrange(0, p.len() as int) == p
}

pub fn str_starts_with(s: &str, p: &str) -> (b: bool)
    ensures
        b == starts_with(s@, p@),
{
    let n: usize = s.unicode_len();
    let m: usize = p.unicode_len();
    if m > n {
        return false;
    }
    let mut i: usize = 0;
    while i < m
        invariant
            0 <= i <= m <= n,
            m == p@.len(),
            n == s@.len(),
            forall|j: int| 0 <= j < i ==> s@[j] == p@[j],
        decreases m - i,
    {
        if s.get_char(i) != p.get_char(i) {
            assert(s@.subrange(0, m as int)[i as int] != p@[i as int]);
            return false;
        }
        i += 1;
    }
    proof {
        assert(s@.subrange(0, m as int) =~= p@);
    }
    true
}

pub fn str_eq(s: &str, p: &str) -> (b: bool)
    ensures
        b == (s@ == p@),
{
    let n: usize = s.unicode_len();
    let m: usize = p.unicode_len();
    if m != n {
        return false;
    }
    let mut i: usize = 0;
    while i < m
        invariant
            0 <= i <= m,
            m == n,
            m == p@.len(),
            n == s@.len(),
            forall|j: int| 0 <= j < i ==> s@[j] == p@[j],
        decreases m - i,
    {
        if s.get_char(i) != p.get_char(i) {
            return false;
        }
        i += 1;
    }
    proof {
        assert(s@ =~= p@);
    }
    true
}

/// `needle` occurs in `s` as a contiguous run.
pub open spec fn contains_seq(s: Seq<char>, needle: Seq<char>) -> bool {
    exists|k: int|
        0 <= k && k + needle.len() <= s.len() && #[trigger] s.subrange(k, k + needle.len() as int)
            == needle
}

pub fn str_contains(s: &str, needle: &str) -> (b: bool)
    ensures
        b == contains_seq(s@, needle@),
{
    let n: usize = s.unicode_len();
    let m: usize = needle.unicode_len();
    if m > n {
        assert(!contains_seq(s@, needle@));
        return false;
    }
    if m == 0 {
        proof {
            assert(s@.subrange(0, 0 + needle@.len() as int) =~= needle@);
        }
        return true;
    }
    let mut k: usize = 0;
    while k <= n - m
        invariant
            0 <= k <= n - m + 1,
            1 <= m <= n,
            m == needle@.len(),
            n == s@.len(),
            forall|q: int|
                0 <= q < k ==> #[trigger] s@.subrange(q, q + needle@.len() as int) != needle@,
        decreases n - m + 1 - k,
    {
        let piece = s.substring_char(k, k + m);
        if str_eq(piece, needle) {
            assert(contains_seq(s@, needle@));
            return true;
        }
        k += 1;
    }
    proof {
        assert forall|q: int| 0 <= q && q + needle@.len() <= s@.len() implies #[trigger] s@
            .subrange(q, q + needle@.len() as int) != needle@ by {
            assert(q < k);
        }
    }
    false
}

} // verus!
