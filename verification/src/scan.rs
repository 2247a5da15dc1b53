//! The single-pattern scanner.
//!
//! A scan walks the text left to right.  At each position the shape either
//! matches with a forced length or not; a found span is consumed — the
//! search resumes after it — whether or not the span survives the overlap
//! check, and the surviving spans become matches in discovery order.

use vstd::prelude::*;

use crate::matching::{lemma_match_len_bounds, shape_match_at, shape_match_len, shape_wf};
use crate::model::{
    end_of, has_overlap, lemma_overlaps_concat, models, ordered_disjoint, overlaps_any, Match,
    MatchModel,
};
use crate::patterns::Shape;

verus! {

/// The matches that scanning `t` for `sh` from position `i` on yields,
/// tagged `tag`, with every span that overlaps a match of `rej` dropped.
pub open spec fn scan_from(
    t: Seq<char>,
    sh: Shape,
    tag: Seq<char>,
    rej: Seq<MatchModel>,
    i: int,
) -> Seq<MatchModel>
    decreases t.len() - i when 0 <= i
{
    if i >= t.len() {
        Seq::empty()
    } else {
        match shape_match_len(t, sh, i) {
            Some(l) => {
                let next = if 1 <= l && i + l <= t.len() {
                    i + l
                } else {
                    i + 1
                };
                let m = MatchModel { value: t.subrange(i, i + l), index: i, type_: tag };
                if overlaps_any(i, i + l, rej) {
                    scan_from(t, sh, tag, rej, next)
                } else {
                    seq![m] + scan_from(t, sh, tag, rej, next)
                }
            },
            None => scan_from(t, sh, tag, rej, i + 1),
        }
    }
}

/// A scan of the whole text.
pub open spec fn spec_scan(t: Seq<char>, sh: Shape, tag: Seq<char>, rej: Seq<MatchModel>) -> Seq<
    MatchModel,
> {
    scan_from(t, sh, tag, rej, 0)
}

/// What holds of every match a scan emits: it lies at or after the scan
/// position, inside the text, is nonempty, carries the scanned substring
/// and the scan's tag, and overlaps no match of the reject list.
pub open spec fn emitted_wf(
    t: Seq<char>,
    tag: Seq<char>,
    rej: Seq<MatchModel>,
    lo: int,
    m: MatchModel,
) -> bool {
    &&& lo <= m.index
    &&& 1 <= m.value.len()
    &&& m.index + m.value.len() <= t.len()
    &&& m.value == t.subrange(m.index, m.index + m.value.len())
    &&& m.type_ == tag
    &&& !overlaps_any(m.index, m.index + m.value.len(), rej)
}

/// The matches of a scan are well formed and come left to right, without
/// contact.
pub proof fn lemma_scan_from_props(
    t: Seq<char>,
    sh: Shape,
    tag: Seq<char>,
    rej: Seq<MatchModel>,
    i: int,
)
    requires
        0 <= i,
        shape_wf(sh),
    ensures
        forall|k: int|
            0 <= k < scan_from(t, sh, tag, rej, i).len() ==> emitted_wf(
                t,
                tag,
                rej,
                i,
                #[trigger] scan_from(t, sh, tag, rej, i)[k],
            ),
        ordered_disjoint(scan_from(t, sh, tag, rej, i)),
    decreases t.len() - i,
{
    let s = scan_from(t, sh, tag, rej, i);
    if i >= t.len() {
    } else {
        match shape_match_len(t, sh, i) {
            Some(l) => {
                lemma_match_len_bounds(t, sh, i, l);
                let next = if 1 <= l && i + l <= t.len() {
                    i + l
                } else {
                    i + 1
                };
                lemma_scan_from_props(t, sh, tag, rej, next);
                let m = MatchModel { value: t.subrange(i, i + l), index: i, type_: tag };
                if !overlaps_any(i, i + l, rej) {
                    assert(s == seq![m] + scan_from(t, sh, tag, rej, next));
                    assert(m.value.len() == l);
                    assert forall|k: int| 0 <= k < s.len() implies emitted_wf(
                        t,
                        tag,
                        rej,
                        i,
                        #[trigger] s[k],
                    ) by {
                        if k > 0 {
                            assert(s[k] == scan_from(t, sh, tag, rej, next)[k - 1]);
                        }
                    }
                    assert forall|k1: int, k2: int| 0 <= k1 < k2 < s.len() implies end_of(
                        #[trigger] s[k1],
                    ) <= (#[trigger] s[k2]).index by {
                        assert(s[k2] == scan_from(t, sh, tag, rej, next)[k2 - 1]);
                        if k1 > 0 {
                            assert(s[k1] == scan_from(t, sh, tag, rej, next)[k1 - 1]);
                        }
                    }
                }
            },
            None => {
                lemma_scan_from_props(t, sh, tag, rej, i + 1);
            },
        }
    }
}

/// Scans the text with one shape and collects the word-bounded hits that
/// overlap no match of either reject list.
pub fn scan_shape(
    text: &str,
    sh: Shape,
    tag: &str,
    rej_a: &Vec<Match>,
    rej_b: &Vec<Match>,
) -> (r: Vec<Match>)
    requires
        shape_wf(sh),
    ensures
        models(r@) == spec_scan(text@, sh, tag@, models(rej_a@) + models(rej_b@)),
{
    let ghost t = text@;
    let ghost rej = models(rej_a@) + models(rej_b@);
    let n = text.unicode_len();
    let mut out: Vec<Match> = Vec::new();
    let mut i: usize = 0;
    proof {
        assert(models(out@) + scan_from(t, sh, tag@, rej, 0) =~= scan_from(t, sh, tag@, rej, 0));
    }
    while i < n
        invariant
            n == t.len(),
            t == text@,
            rej == models(rej_a@) + models(rej_b@),
            shape_wf(sh),
            i <= n,
            scan_from(t, sh, tag@, rej, 0) == models(out@) + scan_from(t, sh, tag@, rej, i as int),
        decreases n - i,
    {
        match shape_match_at(text, sh, i) {
            Some(l) => {
                proof {
                    lemma_match_len_bounds(t, sh, i as int, l as int);
                }
                let ghost m_spec = MatchModel {
                    value: t.subrange(i as int, i as int + l as int),
                    index: i as int,
                    type_: tag@,
                };
                let oa = has_overlap(i, i + l, rej_a);
                let ob = has_overlap(i, i + l, rej_b);
                proof {
                    lemma_overlaps_concat(
                        i as int,
                        i as int + l as int,
                        models(rej_a@),
                        models(rej_b@),
                    );
                }
                if !(oa || ob) {
                    let value = text.substring_char(i, i + l).to_owned();
                    let m = Match { value, index: i, type_: tag.to_owned() };
                    let ghost out0 = out@;
                    out.push(m);
                    proof {
                        assert(models(out@) =~= models(out0) + seq![m_spec]);
                        assert(scan_from(t, sh, tag@, rej, i as int) == seq![m_spec] + scan_from(
                            t,
                            sh,
                            tag@,
                            rej,
                            i as int + l as int,
                        ));
                        assert(models(out0) + (seq![m_spec] + scan_from(
                            t,
                            sh,
                            tag@,
                            rej,
                            i as int + l as int,
                        )) =~= models(out@) + scan_from(t, sh, tag@, rej, i as int + l as int));
                    }
                } else {
                    proof {
                        assert(scan_from(t, sh, tag@, rej, i as int) == scan_from(
                            t,
                            sh,
                            tag@,
                            rej,
                            i as int + l as int,
                        ));
                    }
                }
                i = i + l;
            },
            None => {
                i = i + 1;
            },
        }
    }
    proof {
        assert(scan_from(t, sh, tag@, rej, n as int) =~= Seq::<MatchModel>::empty());
        assert(models(out@) + Seq::<MatchModel>::empty() =~= models(out@));
    }
    out
}

} // verus!
