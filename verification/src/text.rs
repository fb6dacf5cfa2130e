//! Substring search over character sequences.
//!
//! The marker protocol slices a captured stream on the first occurrence of a
//! sentinel, so everything here is phrased in terms of the *first* position at
//! which one character sequence occurs inside another.

use vstd::prelude::*;
use vstd::string::StrSliceExecFns;

verus! {

/// `pat` occurs in `text` starting at position `i`.
pub open spec fn occurs_at(text: Seq<char>, pat: Seq<char>, i: int) -> bool {
    0 <= i && i + pat.len() <= text.len() && text.subrange(i, i + pat.len()) == pat
}

/// `pat` occurs somewhere in `text`.
pub open spec fn occurs(text: Seq<char>, pat: Seq<char>) -> bool {
    exists|i: int| occurs_at(text, pat, i)
}

/// `i` is the first position at which `pat` occurs in `text`.
pub open spec fn is_first_match(text: Seq<char>, pat: Seq<char>, i: int) -> bool {
    occurs_at(text, pat, i) && (forall|j: int| 0 <= j < i ==> !occurs_at(text, pat, j))
}

/// The first position at which `pat` occurs in `text`; meaningful only when
/// `occurs(text, pat)` holds.
pub open spec fn first_match(text: Seq<char>, pat: Seq<char>) -> int {
    choose|i: int| is_first_match(text, pat, i)
}

proof fn lemma_first_exists_from(text: Seq<char>, pat: Seq<char>, i: int)
    requires
        occurs_at(text, pat, i),
    ensures
        exists|k: int| is_first_match(text, pat, k),
    decreases i,
{
    if exists|j: int| 0 <= j < i && occurs_at(text, pat, j) {
        let j = choose|j: int| 0 <= j < i && occurs_at(text, pat, j);
        lemma_first_exists_from(text, pat, j);
    } else {
        assert(is_first_match(text, pat, i));
    }
}

/// Whenever `pat` occurs at all, `first_match` names its first occurrence.
pub proof fn lemma_first_match(text: Seq<char>, pat: Seq<char>)
    requires
        occurs(text, pat),
    ensures
        is_first_match(text, pat, first_match(text, pat)),
{
    let i = choose|i: int| occurs_at(text, pat, i);
    lemma_first_exists_from(text, pat, i);
}

/// A first occurrence is unique, so any witness pins `first_match` down.
pub proof fn lemma_first_match_unique(text: Seq<char>, pat: Seq<char>, i: int)
    requires
        is_first_match(text, pat, i),
    ensures
        first_match(text, pat) == i,
{
    assert(occurs(text, pat));
    lemma_first_match(text, pat);
    let k = first_match(text, pat);
    if k < i {
        assert(!occurs_at(text, pat, k));
    } else if i < k {
        assert(!occurs_at(text, pat, i));
    }
}

/// The characters of `s`, in order.
pub fn chars_of(s: &str) -> (v: Vec<char>)
    ensures
        v@ == s@,
{
    let n: usize = s.unicode_len();
    let mut v: Vec<char> = Vec::new();
    let mut i: usize = 0;
    while i < n
        invariant
            i <= n,
            n == s@.len(),
            v@ == s@.take(i as int),
        decreases n - i,
    {
        let c = s.get_char(i);
        v.push(c);
        assert(v@ =~= s@.take(i as int + 1));
        i += 1;
    }
    assert(v@ =~= s@);
    v
}

/// The first position of `pat` inside `text`, if it occurs at all.
pub fn find_first(text: &Vec<char>, pat: &Vec<char>) -> (r: Option<usize>)
    ensures
        (match r {
            Some(i) => is_first_match(text@, pat@, i as int),
            None => !occurs(text@, pat@),
        }),
{
    if pat.len() > text.len() {
        assert(forall|i: int| !occurs_at(text@, pat@, i));
        return None;
    }
    let bound: usize = text.len() - pat.len();
    let mut i: usize = 0;
    while i <= bound
        invariant
            pat@.len() <= text@.len(),
            bound == text@.len() - pat@.len(),
            i <= bound + 1,
            forall|j: int| 0 <= j < i ==> !occurs_at(text@, pat@, j),
        decreases bound + 1 - i,
    {
        if prefix_matches(text, pat, i) {
            return Some(i);
        }
        if i == bound {
            assert(!occurs(text@, pat@)) by {
                if occurs(text@, pat@) {
                    let k = choose|k: int| occurs_at(text@, pat@, k);
                    assert(k <= bound as int);
                    assert(!occurs_at(text@, pat@, k));
                }
            };
            return None;
        }
        i += 1;
    }
    assert(!occurs(text@, pat@)) by {
        if occurs(text@, pat@) {
            let k = choose|k: int| occurs_at(text@, pat@, k);
            assert(k <= bound as int);
            assert(!occurs_at(text@, pat@, k));
        }
    };
    None
}

fn prefix_matches(text: &Vec<char>, pat: &Vec<char>, i: usize) -> (r: bool)
    requires
        i + pat@.len() <= text@.len(),
    ensures
        r <==> occurs_at(text@, pat@, i as int),
{
    let tlen: usize = text.len();
    let plen: usize = pat.len();
    let mut j: usize = 0;
    while j < plen
        invariant
            tlen == text@.len(),
            plen == pat@.len(),
            i + pat@.len() <= text@.len(),
            j <= pat@.len(),
            forall|k: int| 0 <= k < j ==> text@[i + k] == pat@[k],
        decreases pat@.len() - j,
    {
        if text[i + j] != pat[j] {
            assert(!occurs_at(text@, pat@, i as int)) by {
                if occurs_at(text@, pat@, i as int) {
                    assert(text@.subrange(i as int, i as int + pat@.len())[j as int] == text@[
                        i as int + j as int
                    ]);
                }
            };
            return false;
        }
        j += 1;
    }
    assert(text@.subrange(i as int, i as int + pat@.len()) =~= pat@);
    true
}

} // verus!
