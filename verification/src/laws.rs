//! The stated properties of a scan.
//!
//! The scan pipeline accumulates matches stage by stage, each stage
//! rejecting candidates that overlap what earlier stages accepted, and the
//! result is sorted by start offset.  This module proves, over the
//! specification of the pipeline, that the final match list covers no
//! position twice and is strictly ascending by index, and that a scan is a
//! function of the text alone.

use vstd::prelude::*;

use crate::detect::{
    ens_scan_from, lemma_ens_scan_from_props, spec_find_btc_addresses, spec_find_btc_tx_hashes,
    spec_find_ens_names, spec_find_eth_tx_hashes, spec_find_eth_tx_truncated,
    spec_find_full_addresses, spec_find_sol_addresses, spec_find_sol_tx_signatures,
    spec_find_truncated_addresses,
};
use crate::matching::shape_wf;
use crate::model::{
    all_within_text, disjoint_pair, end_of, models, pairwise_disjoint, range_overlaps, within_text,
    Match, MatchModel,
};
use crate::patterns::{
    btc_bech32_shape, btc_legacy_shape, btc_truncated_bech32_shape, btc_truncated_legacy_shape,
    btc_tx_hash_shape, btc_tx_truncated_shape, eth_tx_hash_shape, eth_tx_truncated_shape,
    full_address_shape, sol_shape, sol_truncated_shape, sol_tx_sig_shape, sol_tx_truncated_shape,
    truncated_shape, Shape,
};
use crate::scan::{emitted_wf, lemma_scan_from_props, spec_scan};
use crate::sort::{lemma_sort_disjoint, lemma_sort_keeps_all, lemma_sort_sorted, sorted_by_index};
use crate::{spec_find_matches, spec_pipeline};

verus! {

/// The invariant the accumulating pipeline maintains: the matches found
/// so far are pairwise disjoint, and each reports a real span of the
/// text.
pub open spec fn good(t: Seq<char>, ms: Seq<MatchModel>) -> bool {
    pairwise_disjoint(ms) && all_within_text(t, ms)
}

/// Appending a scan stage that rejects overlaps with `acc` keeps the
/// accumulated list good.
proof fn lemma_stage_extends(t: Seq<char>, sh: Shape, tag: Seq<char>, acc: Seq<MatchModel>)
    requires
        shape_wf(sh),
        good(t, acc),
    ensures
        good(t, acc + spec_scan(t, sh, tag, acc)),
{
    let stage = spec_scan(t, sh, tag, acc);
    lemma_scan_from_props(t, sh, tag, acc, 0);
    let r = acc + stage;
    assert forall|k1: int, k2: int| 0 <= k1 < k2 < r.len() implies disjoint_pair(
        #[trigger] r[k1],
        #[trigger] r[k2],
    ) by {
        if k2 < acc.len() {
            assert(r[k1] == acc[k1] && r[k2] == acc[k2]);
        } else if k1 < acc.len() {
            let m = stage[k2 - acc.len()];
            assert(r[k1] == acc[k1] && r[k2] == m);
            assert(emitted_wf(t, tag, acc, 0, m));
            assert(!range_overlaps(m.index, m.index + m.value.len(), acc[k1]));
        } else {
            assert(r[k1] == stage[k1 - acc.len()] && r[k2] == stage[k2 - acc.len()]);
            assert(end_of(stage[k1 - acc.len()]) <= stage[k2 - acc.len()].index);
        }
    }
    assert forall|k: int| 0 <= k < r.len() implies within_text(t, #[trigger] r[k]) by {
        if k < acc.len() {
            assert(r[k] == acc[k]);
        } else {
            assert(r[k] == stage[k - acc.len()]);
            assert(emitted_wf(t, tag, acc, 0, stage[k - acc.len()]));
        }
    }
}

/// The same, for the ENS stage.
proof fn lemma_ens_stage_extends(t: Seq<char>, acc: Seq<MatchModel>)
    requires
        good(t, acc),
    ensures
        good(t, acc + ens_scan_from(t, acc, 0)),
{
    let stage = ens_scan_from(t, acc, 0);
    lemma_ens_scan_from_props(t, acc, 0);
    let r = acc + stage;
    assert forall|k1: int, k2: int| 0 <= k1 < k2 < r.len() implies disjoint_pair(
        #[trigger] r[k1],
        #[trigger] r[k2],
    ) by {
        if k2 < acc.len() {
            assert(r[k1] == acc[k1] && r[k2] == acc[k2]);
        } else if k1 < acc.len() {
            let m = stage[k2 - acc.len()];
            assert(r[k1] == acc[k1] && r[k2] == m);
            assert(emitted_wf(t, "ens"@, acc, 0, m));
            assert(!range_overlaps(m.index, m.index + m.value.len(), acc[k1]));
        } else {
            assert(r[k1] == stage[k1 - acc.len()] && r[k2] == stage[k2 - acc.len()]);
            assert(end_of(stage[k1 - acc.len()]) <= stage[k2 - acc.len()].index);
        }
    }
    assert forall|k: int| 0 <= k < r.len() implies within_text(t, #[trigger] r[k]) by {
        if k < acc.len() {
            assert(r[k] == acc[k]);
        } else {
            assert(r[k] == stage[k - acc.len()]);
            assert(emitted_wf(t, "ens"@, acc, 0, stage[k - acc.len()]));
        }
    }
}

proof fn lemma_btc_tx_extends(t: Seq<char>, ex: Seq<MatchModel>)
    requires
        good(t, ex),
    ensures
        good(t, ex + spec_find_btc_tx_hashes(t, ex)),
{
    let full = spec_scan(t, btc_tx_hash_shape(), "btc_tx_hash"@, ex);
    let trunc = spec_scan(t, btc_tx_truncated_shape(), "btc_tx_truncated"@, ex + full);
    lemma_stage_extends(t, btc_tx_hash_shape(), "btc_tx_hash"@, ex);
    lemma_stage_extends(t, btc_tx_truncated_shape(), "btc_tx_truncated"@, ex + full);
    assert(ex + (full + trunc) =~= (ex + full) + trunc);
}

proof fn lemma_sol_tx_extends(t: Seq<char>, ex: Seq<MatchModel>)
    requires
        good(t, ex),
    ensures
        good(t, ex + spec_find_sol_tx_signatures(t, ex)),
{
    let full = spec_scan(t, sol_tx_sig_shape(), "sol_tx_sig"@, ex);
    let trunc = spec_scan(t, sol_tx_truncated_shape(), "sol_tx_truncated"@, ex + full);
    lemma_stage_extends(t, sol_tx_sig_shape(), "sol_tx_sig"@, ex);
    lemma_stage_extends(t, sol_tx_truncated_shape(), "sol_tx_truncated"@, ex + full);
    assert(ex + (full + trunc) =~= (ex + full) + trunc);
}

proof fn lemma_btc_addresses_extends(t: Seq<char>, ex: Seq<MatchModel>)
    requires
        good(t, ex),
    ensures
        good(t, ex + spec_find_btc_addresses(t, ex)),
{
    let legacy = spec_scan(t, btc_legacy_shape(), "btc_legacy"@, ex);
    let bech = spec_scan(t, btc_bech32_shape(), "btc_bech32"@, ex + legacy);
    let tl = spec_scan(t, btc_truncated_legacy_shape(), "btc_truncated_legacy"@, ex + legacy + bech);
    let tb = spec_scan(
        t,
        btc_truncated_bech32_shape(),
        "btc_truncated_bech32"@,
        ex + legacy + bech + tl,
    );
    lemma_stage_extends(t, btc_legacy_shape(), "btc_legacy"@, ex);
    lemma_stage_extends(t, btc_bech32_shape(), "btc_bech32"@, ex + legacy);
    lemma_stage_extends(t, btc_truncated_legacy_shape(), "btc_truncated_legacy"@, ex + legacy + bech);
    lemma_stage_extends(
        t,
        btc_truncated_bech32_shape(),
        "btc_truncated_bech32"@,
        ex + legacy + bech + tl,
    );
    assert(ex + (legacy + bech + tl + tb) =~= ex + legacy + bech + tl + tb);
}

proof fn lemma_sol_addresses_extends(t: Seq<char>, ex: Seq<MatchModel>)
    requires
        good(t, ex),
    ensures
        good(t, ex + spec_find_sol_addresses(t, ex)),
{
    let full = spec_scan(t, sol_shape(), "sol"@, ex);
    let trunc = spec_scan(t, sol_truncated_shape(), "sol_truncated"@, ex + full);
    lemma_stage_extends(t, sol_shape(), "sol"@, ex);
    lemma_stage_extends(t, sol_truncated_shape(), "sol_truncated"@, ex + full);
    assert(ex + (full + trunc) =~= (ex + full) + trunc);
}

/// The accumulated pipeline output is pairwise disjoint, and every match
/// reports a real span of the text.
pub proof fn lemma_pipeline_good(t: Seq<char>)
    ensures
        good(t, spec_pipeline(t)),
{
    let e = Seq::<MatchModel>::empty();
    let m1 = spec_find_eth_tx_hashes(t);
    lemma_stage_extends(t, eth_tx_hash_shape(), "eth_tx_hash"@, e);
    assert(e + spec_scan(t, eth_tx_hash_shape(), "eth_tx_hash"@, e) =~= m1);
    let m2 = m1 + spec_find_eth_tx_truncated(t, m1);
    lemma_stage_extends(t, eth_tx_truncated_shape(), "eth_tx_truncated"@, m1);
    let m3 = m2 + spec_find_btc_tx_hashes(t, m2);
    lemma_btc_tx_extends(t, m2);
    let m4 = m3 + spec_find_sol_tx_signatures(t, m3);
    lemma_sol_tx_extends(t, m3);
    let m5 = m4 + spec_find_full_addresses(t, m4);
    lemma_stage_extends(t, full_address_shape(), "fullAddress"@, m4);
    let m6 = m5 + spec_find_truncated_addresses(t, m5);
    lemma_stage_extends(t, truncated_shape(), "truncated"@, m5);
    let m7 = m6 + spec_find_btc_addresses(t, m6);
    lemma_btc_addresses_extends(t, m6);
    let m8 = m7 + spec_find_sol_addresses(t, m7);
    lemma_sol_addresses_extends(t, m7);
    lemma_ens_stage_extends(t, m8);
}

/// Disjointness: no two matches of a scan's result cover a common
/// character position.
pub proof fn lemma_find_matches_disjoint(t: Seq<char>)
    ensures
        pairwise_disjoint(spec_find_matches(t)),
{
    lemma_pipeline_good(t);
    lemma_sort_disjoint(spec_pipeline(t));
}

/// Ordering: the matches of a scan's result come strictly ascending by
/// start offset.
pub proof fn lemma_find_matches_sorted(t: Seq<char>)
    ensures
        sorted_by_index(spec_find_matches(t)),
        forall|k1: int, k2: int|
            0 <= k1 < k2 < spec_find_matches(t).len() ==> (#[trigger] spec_find_matches(t)[k1]).index
                < (#[trigger] spec_find_matches(t)[k2]).index,
{
    let s = spec_find_matches(t);
    lemma_pipeline_good(t);
    lemma_sort_sorted(spec_pipeline(t));
    lemma_sort_disjoint(spec_pipeline(t));
    lemma_sort_keeps_all(|x: MatchModel| within_text(t, x), spec_pipeline(t));
    assert forall|k1: int, k2: int| 0 <= k1 < k2 < s.len() implies (#[trigger] s[k1]).index < (
    #[trigger] s[k2]).index by {
        assert(disjoint_pair(s[k1], s[k2]));
        assert(s[k1].value.len() >= 1);
        assert(s[k2].value.len() >= 1);
    }
}

/// Faithfulness: every reported match lies inside the text, is nonempty,
/// and its value is exactly the text's substring at its offset.
pub proof fn lemma_find_matches_substrings(t: Seq<char>)
    ensures
        all_within_text(t, spec_find_matches(t)),
{
    lemma_pipeline_good(t);
    lemma_sort_keeps_all(|x: MatchModel| within_text(t, x), spec_pipeline(t));
    assert forall|k: int| 0 <= k < spec_find_matches(t).len() implies within_text(
        t,
        #[trigger] spec_find_matches(t)[k],
    ) by {
        assert((|x: MatchModel| within_text(t, x))(spec_find_matches(t)[k]));
    }
}

/// Determinism: the scan result is a function of the text alone, so two
/// results over the same text are identical.
pub proof fn lemma_find_matches_deterministic(t: Seq<char>, r1: Seq<Match>, r2: Seq<Match>)
    requires
        models(r1) == spec_find_matches(t),
        models(r2) == spec_find_matches(t),
    ensures
        models(r1) == models(r2),
{
}

} // verus!
