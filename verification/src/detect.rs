//! The family detectors and the ENS validator.
//!
//! Each detector scans the text for the sub-forms of one identifier
//! family, full forms before truncated forms, and rejects every candidate
//! that overlaps a match found earlier — by an earlier family (the
//! `existing` argument) or earlier within the same family.

use vstd::prelude::*;

use crate::matching::{ens_match_at, ens_match_len, lemma_ens_match_len_bounds};
use crate::model::{
    end_of, has_overlap, models, ordered_disjoint, overlaps_any, Match, MatchModel,
};
use crate::patterns::{
    btc_bech32_shape, btc_legacy_shape, btc_truncated_bech32_shape, btc_truncated_legacy_shape,
    btc_tx_hash_shape, btc_tx_truncated_shape, eth_tx_hash_shape, eth_tx_truncated_shape,
    full_address_shape, sol_shape, sol_truncated_shape, sol_tx_sig_shape, sol_tx_truncated_shape,
    truncated_shape,
};
use crate::scan::{emitted_wf, scan_shape, spec_scan};

verus! {

/// Whether a candidate is a plausible ENS name: it must end in the literal
/// lower-case `.eth`, and a string of total length at most 7 is kept only
/// if it is longer than 4 characters.
pub open spec fn spec_is_valid_ens(s: Seq<char>) -> bool {
    &&& s.len() >= 4
    &&& s[s.len() - 4] == '.'
    &&& s[s.len() - 3] == 'e'
    &&& s[s.len() - 2] == 't'
    &&& s[s.len() - 1] == 'h'
    &&& (s.len() <= 7 ==> s.len() > 4)
}

/// The ENS noise filter, computed.
pub fn is_valid_ens(text: &str) -> (r: bool)
    ensures
        r == spec_is_valid_ens(text@),
{
    let n = text.unicode_len();
    if n < 4 {
        return false;
    }
    if !(text.get_char(n - 4) == '.' && text.get_char(n - 3) == 'e' && text.get_char(n - 2) == 't'
        && text.get_char(n - 1) == 'h') {
        return false;
    }
    if n <= 7 {
        n > 4
    } else {
        true
    }
}

/// The ENS matches of `t` from position `i` on: every word-bounded
/// label-plus-`.eth` span is consumed, and those that pass the validity
/// filter and overlap nothing in `rej` are kept.
pub open spec fn ens_scan_from(t: Seq<char>, rej: Seq<MatchModel>, i: int) -> Seq<MatchModel>
    decreases t.len() - i when 0 <= i
{
    if i >= t.len() {
        Seq::empty()
    } else {
        match ens_match_len(t, i) {
            Some(l) => {
                let next = if 1 <= l && i + l <= t.len() {
                    i + l
                } else {
                    i + 1
                };
                let m = MatchModel { value: t.subrange(i, i + l), index: i, type_: "ens"@ };
                if spec_is_valid_ens(t.subrange(i, i + l)) && !overlaps_any(i, i + l, rej) {
                    seq![m] + ens_scan_from(t, rej, next)
                } else {
                    ens_scan_from(t, rej, next)
                }
            },
            None => ens_scan_from(t, rej, i + 1),
        }
    }
}

/// The matches of an ENS scan are well formed and come left to right.
pub proof fn lemma_ens_scan_from_props(t: Seq<char>, rej: Seq<MatchModel>, i: int)
    requires
        0 <= i,
    ensures
        forall|k: int|
            0 <= k < ens_scan_from(t, rej, i).len() ==> emitted_wf(
                t,
                "ens"@,
                rej,
                i,
                #[trigger] ens_scan_from(t, rej, i)[k],
            ),
        ordered_disjoint(ens_scan_from(t, rej, i)),
    decreases t.len() - i,
{
    let s = ens_scan_from(t, rej, i);
    if i >= t.len() {
    } else {
        match ens_match_len(t, i) {
            Some(l) => {
                lemma_ens_match_len_bounds(t, i, l);
                let next = if 1 <= l && i + l <= t.len() {
                    i + l
                } else {
                    i + 1
                };
                lemma_ens_scan_from_props(t, rej, next);
                let m = MatchModel { value: t.subrange(i, i + l), index: i, type_: "ens"@ };
                if spec_is_valid_ens(t.subrange(i, i + l)) && !overlaps_any(i, i + l, rej) {
                    assert(s == seq![m] + ens_scan_from(t, rej, next));
                    assert forall|k: int| 0 <= k < s.len() implies emitted_wf(
                        t,
                        "ens"@,
                        rej,
                        i,
                        #[trigger] s[k],
                    ) by {
                        if k > 0 {
                            assert(s[k] == ens_scan_from(t, rej, next)[k - 1]);
                        }
                    }
                    assert forall|k1: int, k2: int| 0 <= k1 < k2 < s.len() implies end_of(
                        #[trigger] s[k1],
                    ) <= (#[trigger] s[k2]).index by {
                        assert(s[k2] == ens_scan_from(t, rej, next)[k2 - 1]);
                        if k1 > 0 {
                            assert(s[k1] == ens_scan_from(t, rej, next)[k1 - 1]);
                        }
                    }
                }
            },
            None => {
                lemma_ens_scan_from_props(t, rej, i + 1);
            },
        }
    }
}

/// Ethereum transaction hashes, full form.
pub open spec fn spec_find_eth_tx_hashes(t: Seq<char>) -> Seq<MatchModel> {
    spec_scan(t, eth_tx_hash_shape(), "eth_tx_hash"@, Seq::empty())
}

/// Ethereum transaction hashes, truncated form.
pub open spec fn spec_find_eth_tx_truncated(t: Seq<char>, ex: Seq<MatchModel>) -> Seq<MatchModel> {
    spec_scan(t, eth_tx_truncated_shape(), "eth_tx_truncated"@, ex)
}

/// Bitcoin transaction hashes: full, then truncated.
pub open spec fn spec_find_btc_tx_hashes(t: Seq<char>, ex: Seq<MatchModel>) -> Seq<MatchModel> {
    let full = spec_scan(t, btc_tx_hash_shape(), "btc_tx_hash"@, ex);
    let trunc = spec_scan(t, btc_tx_truncated_shape(), "btc_tx_truncated"@, ex + full);
    full + trunc
}

/// Solana transaction signatures: full, then truncated.
pub open spec fn spec_find_sol_tx_signatures(t: Seq<char>, ex: Seq<MatchModel>) -> Seq<
    MatchModel,
> {
    let full = spec_scan(t, sol_tx_sig_shape(), "sol_tx_sig"@, ex);
    let trunc = spec_scan(t, sol_tx_truncated_shape(), "sol_tx_truncated"@, ex + full);
    full + trunc
}

/// Ethereum addresses, full form.
pub open spec fn spec_find_full_addresses(t: Seq<char>, ex: Seq<MatchModel>) -> Seq<MatchModel> {
    spec_scan(t, full_address_shape(), "fullAddress"@, ex)
}

/// Ethereum addresses, truncated form.
pub open spec fn spec_find_truncated_addresses(t: Seq<char>, ex: Seq<MatchModel>) -> Seq<
    MatchModel,
> {
    spec_scan(t, truncated_shape(), "truncated"@, ex)
}

/// Bitcoin addresses: legacy, bech32, truncated legacy, truncated bech32.
pub open spec fn spec_find_btc_addresses(t: Seq<char>, ex: Seq<MatchModel>) -> Seq<MatchModel> {
    let legacy = spec_scan(t, btc_legacy_shape(), "btc_legacy"@, ex);
    let bech = spec_scan(t, btc_bech32_shape(), "btc_bech32"@, ex + legacy);
    let tl = spec_scan(t, btc_truncated_legacy_shape(), "btc_truncated_legacy"@, ex + legacy + bech);
    let tb = spec_scan(
        t,
        btc_truncated_bech32_shape(),
        "btc_truncated_bech32"@,
        ex + legacy + bech + tl,
    );
    legacy + bech + tl + tb
}

/// Solana addresses: full, then truncated.
pub open spec fn spec_find_sol_addresses(t: Seq<char>, ex: Seq<MatchModel>) -> Seq<MatchModel> {
    let full = spec_scan(t, sol_shape(), "sol"@, ex);
    let trunc = spec_scan(t, sol_truncated_shape(), "sol_truncated"@, ex + full);
    full + trunc
}

/// ENS names, validated.
pub open spec fn spec_find_ens_names(t: Seq<char>, ex: Seq<MatchModel>) -> Seq<MatchModel> {
    ens_scan_from(t, ex, 0)
}

pub fn find_eth_tx_hashes(text: &str) -> (r: Vec<Match>)
    ensures
        models(r@) == spec_find_eth_tx_hashes(text@),
{
    let none: Vec<Match> = Vec::new();
    let r = scan_shape(text, eth_tx_hash_shape(), "eth_tx_hash", &none, &none);
    proof {
        assert(models(none@) + models(none@) =~= Seq::<MatchModel>::empty());
    }
    r
}

pub fn find_eth_tx_truncated(text: &str, existing: &Vec<Match>) -> (r: Vec<Match>)
    ensures
        models(r@) == spec_find_eth_tx_truncated(text@, models(existing@)),
{
    let none: Vec<Match> = Vec::new();
    let r = scan_shape(text, eth_tx_truncated_shape(), "eth_tx_truncated", existing, &none);
    proof {
        assert(models(existing@) + models(none@) =~= models(existing@));
    }
    r
}

pub fn find_btc_tx_hashes(text: &str, existing: &Vec<Match>) -> (r: Vec<Match>)
    ensures
        models(r@) == spec_find_btc_tx_hashes(text@, models(existing@)),
{
    let none: Vec<Match> = Vec::new();
    let ghost ex = models(existing@);
    let mut ms = scan_shape(text, btc_tx_hash_shape(), "btc_tx_hash", existing, &none);
    let ghost full = models(ms@);
    proof {
        assert(ex + models(none@) =~= ex);
    }
    let mut trunc = scan_shape(text, btc_tx_truncated_shape(), "btc_tx_truncated", existing, &ms);
    ms.append(&mut trunc);
    proof {
        assert(models(ms@) =~= full + spec_scan(
            text@,
            btc_tx_truncated_shape(),
            "btc_tx_truncated"@,
            ex + full,
        ));
    }
    ms
}

pub fn find_sol_tx_signatures(text: &str, existing: &Vec<Match>) -> (r: Vec<Match>)
    ensures
        models(r@) == spec_find_sol_tx_signatures(text@, models(existing@)),
{
    let none: Vec<Match> = Vec::new();
    let ghost ex = models(existing@);
    let mut ms = scan_shape(text, sol_tx_sig_shape(), "sol_tx_sig", existing, &none);
    let ghost full = models(ms@);
    proof {
        assert(ex + models(none@) =~= ex);
    }
    let mut trunc = scan_shape(text, sol_tx_truncated_shape(), "sol_tx_truncated", existing, &ms);
    ms.append(&mut trunc);
    proof {
        assert(models(ms@) =~= full + spec_scan(
            text@,
            sol_tx_truncated_shape(),
            "sol_tx_truncated"@,
            ex + full,
        ));
    }
    ms
}

pub fn find_full_addresses(text: &str, existing: &Vec<Match>) -> (r: Vec<Match>)
    ensures
        models(r@) == spec_find_full_addresses(text@, models(existing@)),
{
    let none: Vec<Match> = Vec::new();
    let r = scan_shape(text, full_address_shape(), "fullAddress", existing, &none);
    proof {
        assert(models(existing@) + models(none@) =~= models(existing@));
    }
    r
}

pub fn find_truncated_addresses(text: &str, existing: &Vec<Match>) -> (r: Vec<Match>)
    ensures
        models(r@) == spec_find_truncated_addresses(text@, models(existing@)),
{
    let none: Vec<Match> = Vec::new();
    let r = scan_shape(text, truncated_shape(), "truncated", existing, &none);
    proof {
        assert(models(existing@) + models(none@) =~= models(existing@));
    }
    r
}

pub fn find_btc_addresses(text: &str, existing: &Vec<Match>) -> (r: Vec<Match>)
    ensures
        models(r@) == spec_find_btc_addresses(text@, models(existing@)),
{
    let none: Vec<Match> = Vec::new();
    let ghost ex = models(existing@);
    let mut ms = scan_shape(text, btc_legacy_shape(), "btc_legacy", existing, &none);
    let ghost legacy = models(ms@);
    proof {
        assert(ex + models(none@) =~= ex);
    }
    let mut bech = scan_shape(text, btc_bech32_shape(), "btc_bech32", existing, &ms);
    let ghost bech_m = models(bech@);
    ms.append(&mut bech);
    proof {
        assert(models(ms@) =~= legacy + bech_m);
        assert(ex + (legacy + bech_m) =~= ex + legacy + bech_m);
    }
    let mut tl = scan_shape(
        text,
        btc_truncated_legacy_shape(),
        "btc_truncated_legacy",
        existing,
        &ms,
    );
    let ghost tl_m = models(tl@);
    ms.append(&mut tl);
    proof {
        assert(models(ms@) =~= legacy + bech_m + tl_m);
        assert(ex + (legacy + bech_m + tl_m) =~= ex + legacy + bech_m + tl_m);
    }
    let mut tb = scan_shape(
        text,
        btc_truncated_bech32_shape(),
        "btc_truncated_bech32",
        existing,
        &ms,
    );
    let ghost tb_m = models(tb@);
    ms.append(&mut tb);
    proof {
        assert(models(ms@) =~= legacy + bech_m + tl_m + tb_m);
    }
    ms
}

pub fn find_sol_addresses(text: &str, existing: &Vec<Match>) -> (r: Vec<Match>)
    ensures
        models(r@) == spec_find_sol_addresses(text@, models(existing@)),
{
    let none: Vec<Match> = Vec::new();
    let ghost ex = models(existing@);
    let mut ms = scan_shape(text, sol_shape(), "sol", existing, &none);
    let ghost full = models(ms@);
    proof {
        assert(ex + models(none@) =~= ex);
    }
    let mut trunc = scan_shape(text, sol_truncated_shape(), "sol_truncated", existing, &ms);
    ms.append(&mut trunc);
    proof {
        assert(models(ms@) =~= full + spec_scan(
            text@,
            sol_truncated_shape(),
            "sol_truncated"@,
            ex + full,
        ));
    }
    ms
}

/// Scans for ENS names, keeping the candidates that pass the validity
/// filter and overlap no existing match.
pub fn find_ens_names(text: &str, existing: &Vec<Match>) -> (r: Vec<Match>)
    ensures
        models(r@) == spec_find_ens_names(text@, models(existing@)),
{
    let ghost t = text@;
    let ghost rej = models(existing@);
    let n = text.unicode_len();
    let mut out: Vec<Match> = Vec::new();
    let mut i: usize = 0;
    proof {
        assert(models(out@) + ens_scan_from(t, rej, 0) =~= ens_scan_from(t, rej, 0));
    }
    while i < n
        invariant
            n == t.len(),
            t == text@,
            rej == models(existing@),
            i <= n,
            ens_scan_from(t, rej, 0) == models(out@) + ens_scan_from(t, rej, i as int),
        decreases n - i,
    {
        match ens_match_at(text, i) {
            Some(l) => {
                proof {
                    lemma_ens_match_len_bounds(t, i as int, l as int);
                }
                let ghost m_spec = MatchModel {
                    value: t.subrange(i as int, i as int + l as int),
                    index: i as int,
                    type_: "ens"@,
                };
                let candidate = text.substring_char(i, i + l);
                let valid = is_valid_ens(candidate);
                let overlapping = has_overlap(i, i + l, existing);
                if valid && !overlapping {
                    let m = Match {
                        value: candidate.to_owned(),
                        index: i,
                        type_: "ens".to_owned(),
                    };
                    let ghost out0 = out@;
                    out.push(m);
                    proof {
                        assert(models(out@) =~= models(out0) + seq![m_spec]);
                        assert(ens_scan_from(t, rej, i as int) == seq![m_spec] + ens_scan_from(
                            t,
                            rej,
                            i as int + l as int,
                        ));
                        assert(models(out0) + (seq![m_spec] + ens_scan_from(
                            t,
                            rej,
                            i as int + l as int,
                        )) =~= models(out@) + ens_scan_from(t, rej, i as int + l as int));
                    }
                } else {
                    proof {
                        assert(ens_scan_from(t, rej, i as int) == ens_scan_from(
                            t,
                            rej,
                            i as int + l as int,
                        ));
                    }
                }
                i = i + l;
            },
            None => {
                i = i + 1;
            },
        }
    }
    proof {
        assert(ens_scan_from(t, rej, n as int) =~= Seq::<MatchModel>::empty());
        assert(models(out@) + Seq::<MatchModel>::empty() =~= models(out@));
    }
    out
}

} // verus!
