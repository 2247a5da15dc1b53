//! Lexical detection of cryptocurrency identifiers in free text.
//!
//! The library scans an arbitrary string for substrings that look like
//! wallet addresses (Ethereum, Bitcoin, Solana, in full or truncated
//! display form), ENS names, and transaction hashes or signatures.  Each
//! hit is reported as a [`Match`] carrying the matched substring, its
//! character offset, and a type tag.  Detection is purely lexical: no
//! checksum of any identifier is verified.  Offsets are measured in
//! characters, the same unit substring extraction uses.
//!
//! The result of a scan is proved to be free of overlaps and strictly
//! ascending by position; see the `laws` module for the stated properties.

pub mod chars;
pub mod detect;
pub mod laws;
pub mod matching;
pub mod model;
pub mod patterns;
pub mod scan;
pub mod sort;

use vstd::prelude::*;

use crate::detect::{
    find_btc_addresses, find_btc_tx_hashes, find_ens_names, find_eth_tx_hashes,
    find_eth_tx_truncated, find_full_addresses, find_sol_addresses, find_sol_tx_signatures,
    find_truncated_addresses, spec_find_btc_addresses, spec_find_btc_tx_hashes,
    spec_find_ens_names, spec_find_eth_tx_hashes, spec_find_eth_tx_truncated,
    spec_find_full_addresses, spec_find_sol_addresses, spec_find_sol_tx_signatures,
    spec_find_truncated_addresses,
};
use crate::model::{models, pairwise_disjoint, within_text, MatchModel};
use crate::sort::{sort_by_index, sort_matches};

pub use crate::model::Match;

verus! {

/// The matches the pipeline accumulates, in stage order: transaction
/// identifiers first (full before truncated), then addresses, then ENS
/// names, each stage rejecting whatever overlaps the matches accumulated
/// before it.
pub open spec fn spec_pipeline(t: Seq<char>) -> Seq<MatchModel> {
    let m1 = spec_find_eth_tx_hashes(t);
    let m2 = m1 + spec_find_eth_tx_truncated(t, m1);
    let m3 = m2 + spec_find_btc_tx_hashes(t, m2);
    let m4 = m3 + spec_find_sol_tx_signatures(t, m3);
    let m5 = m4 + spec_find_full_addresses(t, m4);
    let m6 = m5 + spec_find_truncated_addresses(t, m5);
    let m7 = m6 + spec_find_btc_addresses(t, m6);
    let m8 = m7 + spec_find_sol_addresses(t, m7);
    m8 + spec_find_ens_names(t, m8)
}

/// The full scan: the pipeline's matches, sorted by start offset.
pub open spec fn spec_find_matches(t: Seq<char>) -> Seq<MatchModel> {
    sort_by_index(spec_pipeline(t))
}

/// Scans the text and returns every recognised identifier, ordered by
/// start offset.  The result is a pure function of the text; no two
/// matches overlap, their offsets are strictly ascending, and each value
/// is exactly the text's substring at its offset.
pub fn find_matches(text: &str) -> (r: Vec<Match>)
    ensures
        models(r@) == spec_find_matches(text@),
        pairwise_disjoint(models(r@)),
        forall|k1: int, k2: int|
            0 <= k1 < k2 < r@.len() ==> (#[trigger] models(r@)[k1]).index < (
            #[trigger] models(r@)[k2]).index,
        forall|k: int| 0 <= k < r@.len() ==> within_text(text@, #[trigger] models(r@)[k]),
{
    let ghost t = text@;
    let mut ms = find_eth_tx_hashes(text);
    let ghost m1 = models(ms@);

    let mut stage = find_eth_tx_truncated(text, &ms);
    let ghost s2 = models(stage@);
    ms.append(&mut stage);
    let ghost m2 = models(ms@);
    proof {
        assert(m2 =~= m1 + s2);
    }

    let mut stage = find_btc_tx_hashes(text, &ms);
    let ghost s3 = models(stage@);
    ms.append(&mut stage);
    let ghost m3 = models(ms@);
    proof {
        assert(m3 =~= m2 + s3);
    }

    let mut stage = find_sol_tx_signatures(text, &ms);
    let ghost s4 = models(stage@);
    ms.append(&mut stage);
    let ghost m4 = models(ms@);
    proof {
        assert(m4 =~= m3 + s4);
    }

    let mut stage = find_full_addresses(text, &ms);
    let ghost s5 = models(stage@);
    ms.append(&mut stage);
    let ghost m5 = models(ms@);
    proof {
        assert(m5 =~= m4 + s5);
    }

    let mut stage = find_truncated_addresses(text, &ms);
    let ghost s6 = models(stage@);
    ms.append(&mut stage);
    let ghost m6 = models(ms@);
    proof {
        assert(m6 =~= m5 + s6);
    }

    let mut stage = find_btc_addresses(text, &ms);
    let ghost s7 = models(stage@);
    ms.append(&mut stage);
    let ghost m7 = models(ms@);
    proof {
        assert(m7 =~= m6 + s7);
    }

    let mut stage = find_sol_addresses(text, &ms);
    let ghost s8 = models(stage@);
    ms.append(&mut stage);
    let ghost m8 = models(ms@);
    proof {
        assert(m8 =~= m7 + s8);
    }

    let mut stage = find_ens_names(text, &ms);
    let ghost s9 = models(stage@);
    ms.append(&mut stage);
    proof {
        assert(models(ms@) =~= m8 + s9);
        assert(models(ms@) == spec_pipeline(t));
    }

    let r = sort_matches(ms);
    proof {
        crate::laws::lemma_find_matches_disjoint(t);
        crate::laws::lemma_find_matches_sorted(t);
        crate::laws::lemma_find_matches_substrings(t);
    }
    r
}

} // verus!
