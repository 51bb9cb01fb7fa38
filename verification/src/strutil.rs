//! Verified substring search and the split-tail operation used to cut a
//! decoded link at the final occurrence of the configured marker.

use vstd::prelude::*;

verus! {

/// `pat` occurs in `s` starting at position `i`.
pub open spec fn matches_at(s: Seq<char>, pat: Seq<char>, i: int) -> bool {
    &&& 0 <= i
    &&& i + pat.len() <= s.len()
    &&& s.subrange(i, i + pat.len()) == pat
}

/// `pat` occurs somewhere in `s`.
pub open spec fn has_match(s: Seq<char>, pat: Seq<char>) -> bool {
    exists|i: int| matches_at(s, pat, i)
}

/// What remains of `s` after the final occurrence of `pat`, when `s` is
/// scanned left to right and every occurrence found is consumed whole before
/// the scan resumes. `s` itself when `pat` never occurs; empty when `pat` is
/// empty, since the scan then ends on an empty piece.
pub open spec fn tail_after_last(s: Seq<char>, pat: Seq<char>) -> Seq<char>
    decreases s.len(),
{
    if pat.len() == 0 {
        Seq::empty()
    } else if s.len() < pat.len() {
        s
    } else if pat.is_prefix_of(s) {
        tail_after_last(s.skip(pat.len() as int), pat)
    } else if has_match(s, pat) {
        tail_after_last(s.skip(1), pat)
    } else {
        s
    }
}

/// When `pat` never occurs in `s`, the scan leaves `s` whole.
pub proof fn lemma_no_match_tail(s: Seq<char>, pat: Seq<char>)
    requires
        pat.len() > 0,
        !has_match(s, pat),
    ensures
        tail_after_last(s, pat) == s,
{
    if s.len() >= pat.len() && pat.is_prefix_of(s) {
        assert(s.subrange(0, pat.len() as int) == pat);
        assert(matches_at(s, pat, 0));
    }
}

/// Consuming the first occurrence of `pat` does not change where the scan
/// ends: the tail of `s` is the tail of what follows that occurrence.
pub proof fn lemma_skip_first_match(s: Seq<char>, pat: Seq<char>, i: int)
    requires
        pat.len() > 0,
        matches_at(s, pat, i),
        forall|j: int| 0 <= j < i ==> !matches_at(s, pat, j),
    ensures
        tail_after_last(s, pat) == tail_after_last(s.skip(i + pat.len()), pat),
    decreases i,
{
    let m = pat.len() as int;
    if i == 0 {
        assert(pat.is_prefix_of(s)) by {
            assert(pat =~= s.subrange(0, m));
        }
    } else {
        assert(!pat.is_prefix_of(s)) by {
            if pat.is_prefix_of(s) {
                assert(s.subrange(0, m) == pat);
                assert(matches_at(s, pat, 0));
            }
        }
        assert(has_match(s, pat));
        let t = s.skip(1);
        assert(matches_at(t, pat, i - 1)) by {
            assert(t.subrange(i - 1, i - 1 + m) =~= s.subrange(i, i + m));
        }
        assert(forall|j: int| 0 <= j < i - 1 ==> !matches_at(t, pat, j)) by {
            assert forall|j: int| 0 <= j < i - 1 implies !matches_at(t, pat, j) by {
                if matches_at(t, pat, j) {
                    assert(s.subrange(j + 1, j + 1 + m) =~= t.subrange(j, j + m));
                    assert(matches_at(s, pat, j + 1));
                }
            }
        }
        lemma_skip_first_match(t, pat, i - 1);
        assert(t.skip(i - 1 + m) =~= s.skip(i + m));
    }
}

/// The position of the first occurrence of `pat` in `s`, if any.
pub fn find_first(s: &str, pat: &str) -> (r: Option<usize>)
    ensures
        r matches Some(i) ==> matches_at(s@, pat@, i as int) && (forall|j: int|
            0 <= j < i ==> !matches_at(s@, pat@, j)),
        r is None ==> !has_match(s@, pat@),
{
    let n = s.unicode_len();
    let m = pat.unicode_len();
    if m > n {
        proof {
            assert forall|i: int| !matches_at(s@, pat@, i) by {}
        }
        return None;
    }
    if m == 0 {
        proof {
            assert(s@.subrange(0, 0) =~= pat@);
        }
        return Some(0);
    }
    let mut i: usize = 0;
    while i <= n - m
        invariant
            1 <= m <= n,
            n == s@.len(),
            m == pat@.len(),
            i <= n - m + 1,
            forall|j: int| 0 <= j < i ==> !matches_at(s@, pat@, j),
        decreases n - m + 1 - i,
    {
        let mut j: usize = 0;
        let mut ok = true;
        while j < m && ok
            invariant
                i + m <= n,
                n == s@.len(),
                m == pat@.len(),
                j <= m,
                ok ==> forall|k: int| 0 <= k < j ==> s@[i + k] == pat@[k],
                !ok ==> !matches_at(s@, pat@, i as int),
            decreases m - j, (if ok { 1int } else { 0int }),
        {
            if s.get_char(i + j) == pat.get_char(j) {
                j = j + 1;
            } else {
                proof {
                    if matches_at(s@, pat@, i as int) {
                        assert(s@.subrange(i as int, i + m).len() == m);
                        assert(s@.subrange(i as int, i + m)[j as int] == pat@[j as int]);
                        assert(s@[i + j] == pat@[j as int]);
                    }
                }
                ok = false;
            }
        }
        if ok {
            proof {
                assert(s@.subrange(i as int, i + m) =~= pat@);
            }
            return Some(i);
        }
        i = i + 1;
    }
    proof {
        assert forall|j: int| !matches_at(s@, pat@, j) by {
            if matches_at(s@, pat@, j) {
                assert(j + m <= n);
            }
        }
    }
    None
}

/// What remains of `s` after the final occurrence of `pat` in a left-to-right
/// scan that consumes each occurrence whole; `s` itself when `pat` never
/// occurs, empty when `pat` is empty.
pub fn tail_after_last_str(s: &str, pat: &str) -> (r: String)
    ensures
        r@ == tail_after_last(s@, pat@),
{
    let n = s.unicode_len();
    let m = pat.unicode_len();
    if m == 0 {
        return String::new();
    }
    let mut start: usize = 0;
    proof {
        assert(s@.skip(0) =~= s@);
    }
    loop
        invariant
            m == pat@.len(),
            n == s@.len(),
            1 <= m,
            start <= n,
            tail_after_last(s@, pat@) == tail_after_last(s@.skip(start as int), pat@),
        ensures
            start <= n,
            !has_match(s@.skip(start as int), pat@),
            tail_after_last(s@, pat@) == tail_after_last(s@.skip(start as int), pat@),
        decreases n - start,
    {
        let suffix = s.substring_char(start, n);
        proof {
            assert(suffix@ =~= s@.skip(start as int));
        }
        match find_first(suffix, pat) {
            Some(i) => {
                proof {
                    lemma_skip_first_match(s@.skip(start as int), pat@, i as int);
                    assert(s@.skip(start as int).skip(i + m) =~= s@.skip(start + i + m));
                }
                start = start + i + m;
            },
            None => {
                break;
            },
        }
    }
    proof {
        lemma_no_match_tail(s@.skip(start as int), pat@);
    }
    let r = s.substring_char(start, n);
    proof {
        assert(r@ =~= s@.skip(start as int));
    }
    r.to_owned()
}

} // verus!
