//! Unit tests for the detectors, the overlap resolver, and the ENS
//! validator.

use crypto_detect::detect::{
    find_btc_addresses, find_eth_tx_hashes, find_full_addresses, find_truncated_addresses,
    is_valid_ens,
};
use crypto_detect::model::{has_overlap, Match};

fn mk(value: &str, index: usize, type_: &str) -> Match {
    Match { value: value.to_string(), index, type_: type_.to_string() }
}

#[test]
fn valid_ens_accepts_short_labels_above_four_chars() {
    assert!(is_valid_ens("a.eth"));
    assert!(is_valid_ens("ab.eth"));
    assert!(is_valid_ens("abc.eth"));
    assert!(is_valid_ens("longername.eth"));
}

#[test]
fn valid_ens_rejects_four_chars_or_less() {
    assert!(!is_valid_ens(".eth"));
    assert!(!is_valid_ens("eth"));
    assert!(!is_valid_ens(""));
}

#[test]
fn valid_ens_requires_lowercase_suffix() {
    assert!(!is_valid_ens("name.ETH"));
    assert!(!is_valid_ens("name.eth "));
    assert!(!is_valid_ens("name.etc"));
}

#[test]
fn overlap_is_detected_inside_a_range() {
    let existing = vec![mk("abcde", 10, "sol")];
    assert!(has_overlap(12, 14, &existing));
    assert!(has_overlap(14, 20, &existing));
    assert!(has_overlap(0, 11, &existing));
}

#[test]
fn touching_ranges_do_not_overlap() {
    let existing = vec![mk("abcde", 10, "sol")];
    assert!(!has_overlap(0, 10, &existing));
    assert!(!has_overlap(15, 20, &existing));
    assert!(!has_overlap(0, 0, &existing));
}

#[test]
fn truncated_detector_uses_the_address_tag() {
    let ms = find_truncated_addresses("0xabcd...ef01", &Vec::new());
    assert_eq!(ms.len(), 1);
    assert_eq!(ms[0].type_, "truncated");
    assert_eq!(ms[0].value, "0xabcd...ef01");
}

#[test]
fn full_address_rejected_when_span_already_claimed() {
    let text = format!("0x{}", "a".repeat(40));
    let existing = vec![mk("aaaaa", 40, "eth_tx_hash")];
    assert!(find_full_addresses(&text, &existing).is_empty());
    assert_eq!(find_full_addresses(&text, &Vec::new()).len(), 1);
}

#[test]
fn eth_tx_hashes_finds_every_disjoint_hash() {
    let h = "0123456789abcdef".repeat(4);
    let text = format!("0x{} and 0x{}", h, h);
    let ms = find_eth_tx_hashes(&text);
    assert_eq!(ms.len(), 2);
    assert_eq!(ms[0].index, 0);
    assert_eq!(ms[1].index, 71);
}

#[test]
fn btc_family_scans_legacy_before_truncated() {
    let text = "1A1zP1eP5QGefi2DMPTfTL5SLmv7DivfNa then 1ab...cd";
    let ms = find_btc_addresses(text, &Vec::new());
    assert_eq!(ms.len(), 2);
    assert_eq!(ms[0].type_, "btc_legacy");
    assert_eq!(ms[1].type_, "btc_truncated_legacy");
}

#[test]
fn bech32_run_of_wrong_length_is_no_address() {
    // 38 body characters: one short of the minimum.
    let text = format!("bc1{}", "q".repeat(38));
    assert!(find_btc_addresses(&text, &Vec::new()).is_empty());
}
