//! Laws of the sentinel scheme.
//!
//! The marker protocol only works if sentinels cannot collide: different
//! tags must give different sentinels, no sentinel may hide inside another,
//! and slicing a stream that was written by the convention — start sentinel,
//! its own newline, the payload, end sentinel — must give the payload back
//! exactly.

use vstd::prelude::*;
use crate::text::{occurs, occurs_at, is_first_match};
use crate::text::{lemma_first_match_unique};
use crate::marker::{dashes, marker_start_of, marker_end_of, extract_ok, extracted};

verus! {

/// A tag fit for sentinel building: no dashes, which would blend into the
/// sentinel's frame, and no newlines, since a sentinel is printed as a line
/// of its own.  Both process-wide tags satisfy this.
pub open spec fn plain_tag(t: Seq<char>) -> bool {
    forall|i: int| 0 <= i < t.len() ==> t[i] != '-' && t[i] != '\n'
}

spec fn framed(t: Seq<char>, kind: Seq<char>) -> Seq<char> {
    dashes() + t + kind + dashes()
}

proof fn lemma_kind_plain()
    ensures
        plain_tag("_START"@),
        plain_tag("_END"@),
        "_START"@.len() == 6,
        "_END"@.len() == 4,
{
    reveal_strlit("_START");
    reveal_strlit("_END");
    assert forall|i: int| 0 <= i < "_START"@.len() implies ("_START"@[i] != '-' && "_START"@[i]
        != '\n') by {
        if i == 0 {
            assert("_START"@[0] == '_');
        } else if i == 1 {
            assert("_START"@[1] == 'S');
        } else if i == 2 {
            assert("_START"@[2] == 'T');
        } else if i == 3 {
            assert("_START"@[3] == 'A');
        } else if i == 4 {
            assert("_START"@[4] == 'R');
        } else {
            assert("_START"@[5] == 'T');
        }
    };
    assert forall|i: int| 0 <= i < "_END"@.len() implies ("_END"@[i] != '-' && "_END"@[i] != '\n')
        by {
        if i == 0 {
            assert("_END"@[0] == '_');
        } else if i == 1 {
            assert("_END"@[1] == 'E');
        } else if i == 2 {
            assert("_END"@[2] == 'N');
        } else {
            assert("_END"@[3] == 'D');
        }
    };
}

proof fn lemma_dashes()
    ensures
        dashes().len() == 4,
        forall|i: int| 0 <= i < 4 ==> dashes()[i] == '-',
{
    reveal_strlit("----");
    assert forall|i: int| 0 <= i < 4 implies dashes()[i] == '-' by {
        if i == 0 {
            assert(dashes()[0] == '-');
        } else if i == 1 {
            assert(dashes()[1] == '-');
        } else if i == 2 {
            assert(dashes()[2] == '-');
        } else {
            assert(dashes()[3] == '-');
        }
    };
}

proof fn lemma_framed_index(t: Seq<char>, kind: Seq<char>)
    ensures
        framed(t, kind).len() == t.len() + kind.len() + 8,
        forall|i: int| 0 <= i < 4 ==> #[trigger] framed(t, kind)[i] == '-',
        forall|i: int| 0 <= i < t.len() ==> #[trigger] framed(t, kind)[4 + i] == t[i],
        forall|i: int|
            0 <= i < kind.len() ==> #[trigger] framed(t, kind)[4 + t.len() + i] == kind[i],
        forall|i: int|
            0 <= i < 4 ==> #[trigger] framed(t, kind)[4 + t.len() + kind.len() + i] == '-',
{
    lemma_dashes();
}

/// Inside the frame — past the four leading dashes and before the four
/// trailing ones — a framed sentinel built from plain parts has no dash and
/// no newline anywhere.
proof fn lemma_framed_rim(t: Seq<char>, kind: Seq<char>, i: int)
    requires
        plain_tag(t),
        plain_tag(kind),
        0 <= i < framed(t, kind).len(),
    ensures
        (framed(t, kind)[i] == '-') <==> (i < 4 || i >= framed(t, kind).len() - 4),
        framed(t, kind)[i] != '\n',
{
    lemma_framed_index(t, kind);
    if i < 4 {
    } else if i < 4 + t.len() {
        assert(framed(t, kind)[i] == t[i - 4]);
    } else if i < 4 + t.len() + kind.len() {
        assert(framed(t, kind)[i] == kind[i - 4 - t.len()]);
    } else {
        let m = i - 4 - t.len() - kind.len();
        assert(framed(t, kind)[4 + t.len() + kind.len() + m] == '-');
    }
}

/// If one framed sentinel occurs inside another (both built from plain
/// parts), the occurrence can only be at the very front, and then the two
/// sentinels are the same sequence.
proof fn lemma_framed_occurrence(
    t1: Seq<char>,
    k1: Seq<char>,
    t2: Seq<char>,
    k2: Seq<char>,
    i: int,
)
    requires
        plain_tag(t1),
        plain_tag(k1),
        plain_tag(t2),
        plain_tag(k2),
        k1.len() >= 4,
        occurs_at(framed(t2, k2), framed(t1, k1), i),
    ensures
        i == 0,
        framed(t1, k1) == framed(t2, k2),
{
    let f1 = framed(t1, k1);
    let f2 = framed(t2, k2);
    lemma_framed_index(t1, k1);
    lemma_framed_index(t2, k2);
    assert forall|j: int| 0 <= j < f1.len() implies f2[i + j] == f1[j] by {
        assert(f2.subrange(i, i + f1.len())[j] == f2[i + j]);
    };
    assert(f1.len() >= 12);
    // The four leading dashes of the occurrence pin it to the front.
    if i != 0 {
        if i >= f2.len() - 4 {
            assert(f1.len() <= 4);
        } else if i + 3 >= f2.len() - 4 {
            assert(f1.len() <= 7);
        } else {
            assert(f1[3] == '-');
            assert(f2[i + 3] == '-');
            lemma_framed_rim(t2, k2, i + 3);
            assert(i + 3 < 4);
        }
        assert(false);
    }
    // The four trailing dashes of f1 must land in f2's trailing frame.
    assert(f1[f1.len() - 4] == '-');
    assert(f2[f1.len() - 4] == '-');
    lemma_framed_rim(t2, k2, f1.len() - 4);
    assert(f1.len() - 4 >= f2.len() - 4);
    assert(f1.len() == f2.len());
    assert(f2.subrange(0, f1.len() as int) =~= f2);
    assert(f1 == f2);
}

/// Distinct tags give distinct start sentinels, whatever the tags hold.
pub proof fn lemma_marker_start_injective(t1: Seq<char>, t2: Seq<char>)
    requires
        t1 != t2,
    ensures
        marker_start_of(t1) != marker_start_of(t2),
{
    if marker_start_of(t1) == marker_start_of(t2) {
        lemma_framed_index(t1, "_START"@);
        lemma_framed_index(t2, "_START"@);
        assert(t1.len() == t2.len());
        assert forall|i: int| 0 <= i < t1.len() implies t1[i] == t2[i] by {
            assert(framed(t1, "_START"@)[4 + i] == t1[i]);
            assert(framed(t2, "_START"@)[4 + i] == t2[i]);
        };
        assert(t1 =~= t2);
    }
}

/// For distinct plain tags, neither start sentinel occurs anywhere inside
/// the other: sentinels cannot accidentally contain one another.
pub proof fn lemma_marker_starts_not_substrings(t1: Seq<char>, t2: Seq<char>)
    requires
        t1 != t2,
        plain_tag(t1),
        plain_tag(t2),
    ensures
        !occurs(marker_start_of(t2), marker_start_of(t1)),
        !occurs(marker_start_of(t1), marker_start_of(t2)),
{
    lemma_kind_plain();
    lemma_marker_start_injective(t1, t2);
    if occurs(marker_start_of(t2), marker_start_of(t1)) {
        let i = choose|i: int| occurs_at(marker_start_of(t2), marker_start_of(t1), i);
        lemma_framed_occurrence(t1, "_START"@, t2, "_START"@, i);
    }
    if occurs(marker_start_of(t1), marker_start_of(t2)) {
        let i = choose|i: int| occurs_at(marker_start_of(t1), marker_start_of(t2), i);
        lemma_framed_occurrence(t2, "_START"@, t1, "_START"@, i);
    }
}

proof fn lemma_end_not_in_start(t: Seq<char>)
    requires
        plain_tag(t),
    ensures
        forall|j: int| !occurs_at(marker_start_of(t), marker_end_of(t), j),
{
    lemma_kind_plain();
    assert forall|j: int| !occurs_at(marker_start_of(t), marker_end_of(t), j) by {
        if occurs_at(marker_start_of(t), marker_end_of(t), j) {
            lemma_framed_occurrence(t, "_END"@, t, "_START"@, j);
            lemma_framed_index(t, "_END"@);
            lemma_framed_index(t, "_START"@);
        }
    };
}

/// Extraction is the identity round trip: slicing a stream written by the
/// convention — start sentinel, its own newline, the payload, end sentinel —
/// succeeds and yields the payload exactly.
///
/// The payload must not contain either sentinel; on top of that, the end
/// sentinel must not occur anywhere in the newline, the payload and the end
/// sentinel short of its last character, which rules out
/// a payload whose tail completes a premature copy of the end sentinel (for
/// the tag `T`, a payload ending in `----T_END` followed by the closing
/// sentinel's own leading dashes would contain the full end sentinel early).
pub proof fn lemma_extract_round_trip(t: Seq<char>, p: Seq<char>)
    requires
        plain_tag(t),
        !occurs(p, marker_start_of(t)),
        !occurs(p, marker_end_of(t)),
        !occurs(seq!['\n'] + p + marker_end_of(t).drop_last(), marker_end_of(t)),
    ensures
        ({
            let text = marker_start_of(t) + seq!['\n'] + p + marker_end_of(t);
            extract_ok(text, marker_start_of(t), marker_end_of(t)) && extracted(
                text,
                marker_start_of(t),
                marker_end_of(t),
            ) == p
        }),
{
    lemma_kind_plain();
    let ss = marker_start_of(t);
    let se = marker_end_of(t);
    let text = ss + seq!['\n'] + p + se;
    let sl = ss.len() as int;
    let el = se.len() as int;
    let payload_at = sl + 1 + p.len();
    lemma_framed_index(t, "_START"@);
    lemma_framed_index(t, "_END"@);
    assert(text.len() == sl + 1 + p.len() + el);
    assert forall|j: int| 0 <= j < sl implies #[trigger] text[j] == ss[j] by {};
    assert(text[sl] == '\n');
    assert forall|j: int| 0 <= j < p.len() implies #[trigger] text[sl + 1 + j] == p[j] by {};
    assert forall|j: int| 0 <= j < el implies #[trigger] text[payload_at + j] == se[j] by {};
    // The start sentinel occurs at the front, so its first match is 0.
    assert(occurs_at(text, ss, 0)) by {
        assert(text.subrange(0, sl) =~= ss);
    };
    assert(is_first_match(text, ss, 0));
    lemma_first_match_unique(text, ss, 0);
    // The end sentinel occurs right after the payload.
    assert(occurs_at(text, se, payload_at)) by {
        assert(text.subrange(payload_at, payload_at + el) =~= se);
    };
    // And nowhere earlier.
    assert forall|j: int| 0 <= j < payload_at implies !occurs_at(text, se, j) by {
        if occurs_at(text, se, j) {
            assert forall|x: int| 0 <= x < el implies #[trigger] se[x] == text[j + x] by {
                assert(text.subrange(j, j + el)[x] == text[j + x]);
            };
            if j + el <= sl {
                // Entirely inside the start sentinel: impossible.
                assert(occurs_at(ss, se, j)) by {
                    assert(ss.subrange(j, j + el) =~= text.subrange(j, j + el));
                };
                lemma_end_not_in_start(t);
            } else if j <= sl {
                // The window would cover the newline after the start
                // sentinel, but the end sentinel holds no newline.
                lemma_framed_rim(t, "_END"@, sl - j);
                assert(se[sl - j] == text[sl]);
            } else {
                // Entirely inside newline + payload + end sentinel, ending
                // short of the end sentinel's last character.
                let w = seq!['\n'] + p + se.drop_last();
                assert(w.len() == 1 + p.len() + el - 1);
                assert forall|x: int| 0 <= x < w.len() implies #[trigger] w[x] == text[sl + x] by {
                    if x == 0 {
                    } else if x < 1 + p.len() {
                        assert(w[x] == p[x - 1]);
                        assert(text[sl + 1 + (x - 1)] == p[x - 1]);
                    } else {
                        assert(w[x] == se.drop_last()[x - 1 - p.len()]);
                        assert(text[payload_at + (x - (1 + p.len()))] == se[x - 1 - p.len()]);
                    }
                };
                assert(occurs_at(w, se, j - sl)) by {
                    assert(j - sl + el <= w.len());
                    assert(w.subrange(j - sl, j - sl + el) =~= text.subrange(j, j + el));
                };
            }
        }
    };
    assert(is_first_match(text, se, payload_at));
    lemma_first_match_unique(text, se, payload_at);
    assert(extract_ok(text, ss, se));
    assert(text.subrange(sl + 1, payload_at) =~= p);
}

} // verus!
