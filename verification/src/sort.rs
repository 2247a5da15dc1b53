//! The final stable sort of the accumulated matches by start offset.

use vstd::prelude::*;

use crate::model::{disjoint_pair, models, pairwise_disjoint, Match, MatchModel};

verus! {

/// `m` placed into `s` after every match of equal or smaller index.
pub open spec fn insert_by_index(m: MatchModel, s: Seq<MatchModel>) -> Seq<MatchModel>
    decreases s.len(),
{
    if s.len() == 0 {
        seq![m]
    } else if m.index < s[0].index {
        seq![m] + s
    } else {
        seq![s[0]] + insert_by_index(m, s.drop_first())
    }
}

/// Stable insertion sort by index.
pub open spec fn sort_by_index(s: Seq<MatchModel>) -> Seq<MatchModel>
    decreases s.len(),
{
    if s.len() == 0 {
        Seq::empty()
    } else {
        insert_by_index(s.last(), sort_by_index(s.drop_last()))
    }
}

/// Ascending by index.
pub open spec fn sorted_by_index(s: Seq<MatchModel>) -> bool {
    forall|k1: int, k2: int|
        0 <= k1 < k2 < s.len() ==> (#[trigger] s[k1]).index <= (#[trigger] s[k2]).index
}

/// A property of every element survives an insertion.
pub proof fn lemma_insert_keeps_all(p: spec_fn(MatchModel) -> bool, m: MatchModel, s: Seq<MatchModel>)
    requires
        p(m),
        forall|k: int| 0 <= k < s.len() ==> p(#[trigger] s[k]),
    ensures
        insert_by_index(m, s).len() == s.len() + 1,
        forall|k: int| 0 <= k < s.len() + 1 ==> p(#[trigger] insert_by_index(m, s)[k]),
    decreases s.len(),
{
    let r = insert_by_index(m, s);
    if s.len() == 0 {
    } else if m.index < s[0].index {
        assert forall|k: int| 0 <= k < s.len() + 1 implies p(#[trigger] r[k]) by {
            if k > 0 {
                assert(r[k] == s[k - 1]);
            }
        }
    } else {
        lemma_insert_keeps_all(p, m, s.drop_first());
        assert forall|k: int| 0 <= k < s.len() + 1 implies p(#[trigger] r[k]) by {
            if k > 0 {
                assert(r[k] == insert_by_index(m, s.drop_first())[k - 1]);
            }
        }
    }
}

/// A property of every element survives the sort.
pub proof fn lemma_sort_keeps_all(p: spec_fn(MatchModel) -> bool, s: Seq<MatchModel>)
    requires
        forall|k: int| 0 <= k < s.len() ==> p(#[trigger] s[k]),
    ensures
        sort_by_index(s).len() == s.len(),
        forall|k: int| 0 <= k < s.len() ==> p(#[trigger] sort_by_index(s)[k]),
    decreases s.len(),
{
    if s.len() > 0 {
        lemma_sort_keeps_all(p, s.drop_last());
        lemma_insert_keeps_all(p, s.last(), sort_by_index(s.drop_last()));
    }
}

/// Insertion keeps a sequence sorted.
pub proof fn lemma_insert_sorted(m: MatchModel, s: Seq<MatchModel>)
    requires
        sorted_by_index(s),
    ensures
        sorted_by_index(insert_by_index(m, s)),
    decreases s.len(),
{
    let r = insert_by_index(m, s);
    if s.len() == 0 {
    } else if m.index < s[0].index {
        assert forall|k1: int, k2: int| 0 <= k1 < k2 < r.len() implies (#[trigger] r[k1]).index <= (
        #[trigger] r[k2]).index by {
            assert(r[k2] == s[k2 - 1]);
            if k1 > 0 {
                assert(r[k1] == s[k1 - 1]);
            }
        }
    } else {
        let rest = s.drop_first();
        lemma_insert_sorted(m, rest);
        lemma_insert_keeps_all(|x: MatchModel| s[0].index <= x.index, m, rest);
        assert forall|k1: int, k2: int| 0 <= k1 < k2 < r.len() implies (#[trigger] r[k1]).index <= (
        #[trigger] r[k2]).index by {
            assert(r[k2] == insert_by_index(m, rest)[k2 - 1]);
            if k1 > 0 {
                assert(r[k1] == insert_by_index(m, rest)[k1 - 1]);
            }
        }
    }
}

/// The sort's result is sorted.
pub proof fn lemma_sort_sorted(s: Seq<MatchModel>)
    ensures
        sorted_by_index(sort_by_index(s)),
    decreases s.len(),
{
    if s.len() > 0 {
        lemma_sort_sorted(s.drop_last());
        lemma_insert_sorted(s.last(), sort_by_index(s.drop_last()));
    }
}

/// Inserting a match that is disjoint from every element keeps the
/// sequence pairwise disjoint.
pub proof fn lemma_insert_disjoint(m: MatchModel, s: Seq<MatchModel>)
    requires
        pairwise_disjoint(s),
        forall|k: int| 0 <= k < s.len() ==> disjoint_pair(m, #[trigger] s[k]),
    ensures
        pairwise_disjoint(insert_by_index(m, s)),
    decreases s.len(),
{
    let r = insert_by_index(m, s);
    if s.len() == 0 {
    } else if m.index < s[0].index {
        assert forall|k1: int, k2: int| 0 <= k1 < k2 < r.len() implies disjoint_pair(
            #[trigger] r[k1],
            #[trigger] r[k2],
        ) by {
            assert(r[k2] == s[k2 - 1]);
            if k1 > 0 {
                assert(r[k1] == s[k1 - 1]);
            }
        }
    } else {
        let rest = s.drop_first();
        lemma_insert_disjoint(m, rest);
        lemma_insert_keeps_all(|x: MatchModel| disjoint_pair(s[0], x), m, rest);
        assert forall|k1: int, k2: int| 0 <= k1 < k2 < r.len() implies disjoint_pair(
            #[trigger] r[k1],
            #[trigger] r[k2],
        ) by {
            assert(r[k2] == insert_by_index(m, rest)[k2 - 1]);
            if k1 > 0 {
                assert(r[k1] == insert_by_index(m, rest)[k1 - 1]);
            }
        }
    }
}

/// The sort keeps pairwise disjointness.
pub proof fn lemma_sort_disjoint(s: Seq<MatchModel>)
    requires
        pairwise_disjoint(s),
    ensures
        pairwise_disjoint(sort_by_index(s)),
    decreases s.len(),
{
    if s.len() > 0 {
        let rest = s.drop_last();
        let m = s.last();
        lemma_sort_disjoint(rest);
        assert forall|k: int| 0 <= k < rest.len() implies disjoint_pair(m, #[trigger] rest[k]) by {
            assert(disjoint_pair(rest[k], m));
        }
        lemma_sort_keeps_all(|x: MatchModel| disjoint_pair(m, x), rest);
        lemma_insert_disjoint(m, sort_by_index(rest));
    }
}

/// `insert_by_index` places the match exactly at the first position whose
/// index exceeds the inserted one.
pub proof fn lemma_insert_at_position(m: MatchModel, s: Seq<MatchModel>, j: int)
    requires
        0 <= j <= s.len(),
        forall|k: int| 0 <= k < j ==> (#[trigger] s[k]).index <= m.index,
        j < s.len() ==> m.index < s[j].index,
    ensures
        insert_by_index(m, s) == s.insert(j, m),
    decreases s.len(),
{
    if s.len() == 0 {
        assert(insert_by_index(m, s) =~= s.insert(0, m));
    } else if j == 0 {
        assert(insert_by_index(m, s) =~= s.insert(0, m));
    } else {
        lemma_insert_at_position(m, s.drop_first(), j - 1);
        assert(insert_by_index(m, s) =~= s.insert(j, m));
    }
}

/// Inserts a match into a vector sorted by index, after every match of
/// equal or smaller index.
fn insert_match(out: &mut Vec<Match>, m: Match)
    ensures
        models(final(out)@) == insert_by_index(m@, models(old(out)@)),
{
    let ghost s = models(out@);
    let mut j: usize = 0;
    while j < out.len() && out[j].index <= m.index
        invariant
            j <= out@.len(),
            s == models(out@),
            forall|k: int| 0 <= k < j ==> (#[trigger] s[k]).index <= m@.index,
        decreases out@.len() - j,
    {
        assert(s[j as int].index == out@[j as int]@.index);
        j = j + 1;
    }
    proof {
        lemma_insert_at_position(m@, s, j as int);
    }
    let ghost before = out@;
    out.insert(j, m);
    proof {
        assert(models(out@) =~= models(before).insert(j as int, m@));
    }
}

/// Sorts the matches ascending by start offset, keeping the relative
/// order of equal offsets.
pub fn sort_matches(v: Vec<Match>) -> (r: Vec<Match>)
    ensures
        models(r@) == sort_by_index(models(v@)),
{
    let mut rest = v;
    let ghost orig = models(rest@);
    let mut out: Vec<Match> = Vec::new();
    let ghost mut k: int = 0;
    proof {
        assert(orig.take(0) =~= Seq::<MatchModel>::empty());
        assert(models(rest@) =~= orig.skip(0));
        assert(models(out@) =~= sort_by_index(orig.take(0)));
    }
    while rest.len() > 0
        invariant
            0 <= k <= orig.len(),
            models(rest@) == orig.skip(k),
            models(out@) == sort_by_index(orig.take(k)),
        decreases rest@.len(),
    {
        let ghost rest0 = models(rest@);
        let m = rest.remove(0);
        proof {
            assert(rest0.len() > 0);
            assert(m@ == rest0[0]);
            assert(rest0 == orig.skip(k));
            assert(rest0.len() == orig.len() - k);
            assert(0 <= k < orig.len());
            assert(orig.skip(k) == orig.subrange(k, orig.len() as int));
            assert(orig.subrange(k, orig.len() as int)[0] == orig[k]);
            assert(models(rest@) =~= rest0.drop_first());
            assert(rest0.drop_first() =~= orig.skip(k + 1));
        }
        insert_match(&mut out, m);
        proof {
            assert(orig.take(k + 1).drop_last() =~= orig.take(k));
            assert(orig.take(k + 1).last() == orig[k]);
            assert(sort_by_index(orig.take(k + 1)) == insert_by_index(
                orig[k],
                sort_by_index(orig.take(k)),
            ));
            k = k + 1;
        }
    }
    proof {
        assert(orig.take(k) =~= orig);
    }
    out
}

} // verus!
