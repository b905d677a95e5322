//! First-occurrence search of one byte slice inside another.

use vstd::prelude::*;

verus! {

/// Whether `pat` occurs in `hay` starting at position `i`.
pub open spec fn occurs_at(hay: Seq<u8>, pat: Seq<u8>, i: int) -> bool {
    0 <= i && i + pat.len() <= hay.len() && hay.subrange(i, i + pat.len()) == pat
}

/// Search for one byte sequence inside another.
pub trait SubSequence: View<V = Seq<u8>> {
    /// The position of the first occurrence of `s` in `self`, if any.
    fn find_slice(&self, s: &[u8]) -> (r: Option<usize>)
        ensures
            match r {
                Some(i) => occurs_at(self@, s@, i as int) && forall|j: int|
                    0 <= j < i ==> !occurs_at(self@, s@, j),
                None => forall|j: int| !occurs_at(self@, s@, j),
            },
    ;
}

/// The first position at or after `k` where `pat` occurs in `s`, as a
/// recursive function; `find_first` returns exactly this.
pub open spec fn first_occ_from(s: Seq<u8>, pat: Seq<u8>, k: int) -> Option<int>
    decreases s.len() - k + 1,
{
    if k < 0 || k + pat.len() > s.len() {
        None
    } else if s.subrange(k, k + pat.len()) == pat {
        Some(k)
    } else {
        first_occ_from(s, pat, k + 1)
    }
}

/// What `first_occ_from` answers, said with quantifiers: a hit is a first
/// hit, a miss means there is none at or after `k`.
pub proof fn lemma_first_occ_props(s: Seq<u8>, pat: Seq<u8>, k: int)
    requires
        0 <= k,
    ensures
        match first_occ_from(s, pat, k) {
            Some(i) => k <= i && occurs_at(s, pat, i) && forall|j: int|
                k <= j < i ==> !occurs_at(s, pat, j),
            None => forall|j: int| j >= k ==> !occurs_at(s, pat, j),
        },
    decreases s.len() + 1 - k,
{
    if k + pat.len() > s.len() {
    } else if s.subrange(k, k + pat.len()) == pat {
    } else {
        lemma_first_occ_props(s, pat, k + 1);
    }
}

proof fn lemma_first_occ_some(s: Seq<u8>, pat: Seq<u8>, k: int, i: int)
    requires
        0 <= k <= i,
        occurs_at(s, pat, i),
        forall|j: int| k <= j < i ==> !occurs_at(s, pat, j),
    ensures
        first_occ_from(s, pat, k) == Some(i),
    decreases i - k,
{
    if k < i {
        assert(!occurs_at(s, pat, k));
        lemma_first_occ_some(s, pat, k + 1, i);
    }
}

proof fn lemma_first_occ_none(s: Seq<u8>, pat: Seq<u8>, k: int)
    requires
        0 <= k,
        forall|j: int| j >= k ==> !occurs_at(s, pat, j),
    ensures
        first_occ_from(s, pat, k) == None::<int>,
    decreases s.len() + 1 - k,
{
    if k + pat.len() <= s.len() {
        assert(!occurs_at(s, pat, k));
        lemma_first_occ_none(s, pat, k + 1);
    }
}

/// The position of the first occurrence of `pat` in `hay`, as
/// `first_occ_from` gives it.
pub fn find_first(hay: &[u8], pat: &[u8]) -> (r: Option<usize>)
    ensures
        match r {
            Some(i) => first_occ_from(hay@, pat@, 0) == Some(i as int),
            None => first_occ_from(hay@, pat@, 0) is None,
        },
{
    let r = hay.find_slice(pat);
    proof {
        match r {
            Some(i) => lemma_first_occ_some(hay@, pat@, 0, i as int),
            None => lemma_first_occ_none(hay@, pat@, 0),
        }
    }
    r
}

impl SubSequence for [u8] {
    fn find_slice(&self, s: &[u8]) -> (r: Option<usize>)
        ensures
            match r {
                Some(i) => occurs_at(self@, s@, i as int) && forall|j: int|
                    0 <= j < i ==> !occurs_at(self@, s@, j),
                None => forall|j: int| !occurs_at(self@, s@, j),
            },
    {
        let n = self.len();
        let len = s.len();
        if len > n {
            assert(forall|j: int| !occurs_at(self@, s@, j));
            return None;
        }
        let mut start: usize = 0;
        while start <= n - len
            invariant
                len == s@.len(),
                n == self@.len(),
                len <= n,
                start <= n - len + 1,
                forall|j: int| 0 <= j < start ==> !occurs_at(self@, s@, j),
            decreases n - len - start + 1,
        {
            let mut k: usize = 0;
            while k < len && self[start + k] == s[k]
                invariant
                    len == s@.len(),
                    n == self@.len(),
                    start + len <= n,
                    k <= len,
                    forall|m: int| 0 <= m < k ==> self@[start + m] == s@[m],
                decreases len - k,
            {
                k = k + 1;
            }
            if k == len {
                assert(self@.subrange(start as int, start + len) =~= s@);
                return Some(start);
            }
            assert(!occurs_at(self@, s@, start as int)) by {
                if self@.subrange(start as int, start + len) == s@ {
                    assert(self@.subrange(start as int, start + len)[k as int] == s@[k as int]);
                }
            }
            start = start + 1;
        }
        assert forall|j: int| !occurs_at(self@, s@, j) by {
            if occurs_at(self@, s@, j) {
                assert(j + len <= n);
                assert(j < start);
            }
        }
        None
    }
}

} // verus!
