//! The match record, its mathematical model, and range overlap.

use vstd::prelude::*;

verus! {

/// One recognised identifier occurrence: the matched substring exactly as
/// it appears in the input, the character offset of its first character,
/// and the tag of the pattern that produced it.
#[derive(Debug, PartialEq, Eq)]
pub struct Match {
    pub value: String,
    pub index: usize,
    pub type_: String,
}

/// The mathematical model of a [`Match`]: the same three components over
/// `Seq<char>` and `int`.
pub ghost struct MatchModel {
    pub value: Seq<char>,
    pub index: int,
    pub type_: Seq<char>,
}

impl View for Match {
    type V = MatchModel;

    open spec fn view(&self) -> MatchModel {
        MatchModel { value: self.value@, index: self.index as int, type_: self.type_@ }
    }
}

/// The models of a sequence of matches.
pub open spec fn models(v: Seq<Match>) -> Seq<MatchModel> {
    v.map_values(|m: Match| m@)
}

/// One past the last character position a match covers.
pub open spec fn end_of(m: MatchModel) -> int {
    m.index + m.value.len()
}

/// Whether the half-open range `[start, end)` shares a position with the
/// range covered by `m`.
pub open spec fn range_overlaps(start: int, end: int, m: MatchModel) -> bool {
    start < end_of(m) && m.index < end
}

/// Whether `[start, end)` overlaps any match of `ms`.
pub open spec fn overlaps_any(start: int, end: int, ms: Seq<MatchModel>) -> bool {
    exists|k: int| 0 <= k < ms.len() && #[trigger] range_overlaps(start, end, ms[k])
}

/// Whether the ranges of two matches are disjoint.
pub open spec fn disjoint_pair(m1: MatchModel, m2: MatchModel) -> bool {
    !(m1.index < end_of(m2) && m2.index < end_of(m1))
}

/// No two matches of the sequence cover a common position.
pub open spec fn pairwise_disjoint(ms: Seq<MatchModel>) -> bool {
    forall|k1: int, k2: int|
        0 <= k1 < k2 < ms.len() ==> disjoint_pair(#[trigger] ms[k1], #[trigger] ms[k2])
}

/// The matches appear left to right and without contact: each one ends at
/// or before the start of the next.
pub open spec fn ordered_disjoint(ms: Seq<MatchModel>) -> bool {
    forall|k1: int, k2: int|
        0 <= k1 < k2 < ms.len() ==> end_of(#[trigger] ms[k1]) <= (#[trigger] ms[k2]).index
}

/// The match reports a real, nonempty span of the text `t`: its value is
/// exactly the text's substring at its offset.
pub open spec fn within_text(t: Seq<char>, m: MatchModel) -> bool {
    &&& 0 <= m.index
    &&& 1 <= m.value.len()
    &&& m.index + m.value.len() <= t.len()
    &&& m.value == t.subrange(m.index, m.index + m.value.len())
}

/// Every match of the sequence reports a real span of `t`.
pub open spec fn all_within_text(t: Seq<char>, ms: Seq<MatchModel>) -> bool {
    forall|k: int| 0 <= k < ms.len() ==> within_text(t, #[trigger] ms[k])
}

/// Overlap against a concatenation is overlap against either part.
pub proof fn lemma_overlaps_concat(start: int, end: int, a: Seq<MatchModel>, b: Seq<MatchModel>)
    ensures
        overlaps_any(start, end, a + b) <==> overlaps_any(start, end, a) || overlaps_any(
            start,
            end,
            b,
        ),
{
    if overlaps_any(start, end, a) {
        let k = choose|k: int| 0 <= k < a.len() && #[trigger] range_overlaps(start, end, a[k]);
        assert((a + b)[k] == a[k]);
    }
    if overlaps_any(start, end, b) {
        let k = choose|k: int| 0 <= k < b.len() && #[trigger] range_overlaps(start, end, b[k]);
        assert((a + b)[a.len() + k] == b[k]);
    }
    if overlaps_any(start, end, a + b) {
        let k = choose|k: int|
            0 <= k < (a + b).len() && #[trigger] range_overlaps(start, end, (a + b)[k]);
        if k < a.len() {
            assert((a + b)[k] == a[k]);
        } else {
            assert((a + b)[k] == b[k - a.len()]);
        }
    }
}

/// Whether the range `[start, end)` overlaps any match already in `ms`.
pub fn has_overlap(start: usize, end: usize, ms: &Vec<Match>) -> (r: bool)
    ensures
        r == overlaps_any(start as int, end as int, models(ms@)),
{
    let mut k: usize = 0;
    while k < ms.len()
        invariant
            0 <= k <= ms@.len(),
            forall|j: int|
                0 <= j < k ==> !range_overlaps(start as int, end as int, #[trigger] models(ms@)[j]),
        decreases ms@.len() - k,
    {
        let m = &ms[k];
        let value_len = m.value.as_str().unicode_len();
        let hits = match m.index.checked_add(value_len) {
            Some(m_end) => start < m_end && m.index < end,
            // the true end lies beyond usize::MAX, hence beyond `start`
            None => m.index < end,
        };
        if hits {
            assert(range_overlaps(start as int, end as int, models(ms@)[k as int]));
            return true;
        }
        k = k + 1;
    }
    false
}

} // verus!
