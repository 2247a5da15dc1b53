//! End-to-end scenarios for the full scan.

use crypto_detect::find_matches;
use crypto_detect::Match;

fn hex40() -> String {
    "a1b2c3d4e5f6".repeat(3) + "a1b2"
}

fn hex64() -> String {
    "a1b2c3d4e5f6".repeat(5) + "a1b2"
}

fn assert_disjoint_and_sorted(ms: &[Match]) {
    for w in ms.windows(2) {
        let end0 = w[0].index + w[0].value.chars().count();
        assert!(w[0].index < w[1].index, "not strictly ascending");
        assert!(end0 <= w[1].index, "overlapping matches");
    }
}

#[test]
fn empty_input_yields_nothing() {
    assert!(find_matches("").is_empty());
}

#[test]
fn plain_text_yields_nothing() {
    assert!(find_matches("hello world").is_empty());
}

#[test]
fn full_eth_address_alone() {
    let text = format!("0x{}", "a".repeat(40));
    let ms = find_matches(&text);
    assert_eq!(ms.len(), 1);
    assert_eq!(ms[0].value, text);
    assert_eq!(ms[0].index, 0);
    assert_eq!(ms[0].type_, "fullAddress");
}

#[test]
fn full_address_wins_over_adjacent_truncated_content() {
    // A full 40-hex address immediately followed by ellipsis-and-hex that
    // truncated patterns could otherwise bite into: the full form claims
    // its span and no truncated match overlaps it.
    let addr = format!("0x{}", "a".repeat(40));
    let text = format!("{}...abcd1234", addr);
    let ms = find_matches(&text);
    assert_eq!(ms.len(), 1);
    assert_eq!(ms[0].type_, "fullAddress");
    assert_eq!(ms[0].index, 0);
    assert_eq!(ms[0].value, addr);
}

#[test]
fn eth_tx_hash_claims_whole_token() {
    let text = format!("tx 0x{}", hex64());
    let ms = find_matches(&text);
    assert_eq!(ms.len(), 1);
    assert_eq!(ms[0].type_, "eth_tx_hash");
    assert_eq!(ms[0].index, 3);
    assert_eq!(ms[0].value.len(), 66);
    assert_eq!(ms[0].value, format!("0x{}", hex64()));
}

#[test]
fn same_text_twice_yields_identical_output() {
    let text = format!(
        "wallet 0x{} and 1A1zP1eP5QGefi2DMPTfTL5SLmv7DivfNa plus sub.eth, tx {}",
        "b".repeat(40),
        hex64()
    );
    let first = find_matches(&text);
    let second = find_matches(&text);
    assert_eq!(first, second);
}

#[test]
fn mixed_text_three_matches_in_order() {
    let eth = format!("0x{}", hex40());
    let btc = "1A1zP1eP5QGefi2DMPTfTL5SLmv7DivfNa";
    let text = format!("pay {} or {} via vitalik.eth today", eth, btc);
    let ms = find_matches(&text);
    assert_eq!(ms.len(), 3);
    assert_disjoint_and_sorted(&ms);
    assert_eq!(ms[0].type_, "fullAddress");
    assert_eq!(ms[0].value, eth);
    assert_eq!(ms[0].index, text.find(&eth).unwrap());
    assert_eq!(ms[1].type_, "btc_legacy");
    assert_eq!(ms[1].value, btc);
    assert_eq!(ms[1].index, text.find(btc).unwrap());
    assert_eq!(ms[2].type_, "ens");
    assert_eq!(ms[2].value, "vitalik.eth");
    assert_eq!(ms[2].index, text.find("vitalik.eth").unwrap());
}

#[test]
fn busy_text_output_is_disjoint_and_sorted() {
    let text = format!(
        "{} junk 0xdead...beef {} bc1l0ab...l0cd mid {} 1ab...cd end name.eth 0x{}",
        format!("0x{}", hex64()),
        "5".repeat(87),
        "z".repeat(40),
        "c".repeat(40),
    );
    let ms = find_matches(&text);
    assert!(ms.len() >= 5);
    assert_disjoint_and_sorted(&ms);
}

#[test]
fn eth_truncated_alone_is_typed_as_tx_truncated() {
    // The transaction-hash stage scans the ellipsis shape first, so a lone
    // truncated token carries the eth_tx_truncated tag.
    let ms = find_matches("0xabcd...ef01");
    assert_eq!(ms.len(), 1);
    assert_eq!(ms[0].type_, "eth_tx_truncated");
    assert_eq!(ms[0].value, "0xabcd...ef01");
    assert_eq!(ms[0].index, 0);
}

#[test]
fn unicode_ellipsis_is_accepted() {
    let ms = find_matches("0xabcd\u{2026}ef01");
    assert_eq!(ms.len(), 1);
    assert_eq!(ms[0].type_, "eth_tx_truncated");
    assert_eq!(ms[0].value, "0xabcd\u{2026}ef01");
}

#[test]
fn four_dots_are_no_ellipsis() {
    assert!(find_matches("0xabcd....ef01").is_empty());
}

#[test]
fn offsets_count_characters() {
    // A two-character (multi-byte) arrow before the address: indices are
    // measured in characters of the input.
    let text = format!("\u{2192}\u{2192} 0x{}", "d".repeat(40));
    let ms = find_matches(&text);
    assert_eq!(ms.len(), 1);
    assert_eq!(ms[0].index, 3);
    assert_eq!(ms[0].type_, "fullAddress");
}

#[test]
fn word_char_before_prefix_blocks_match() {
    let text = format!("z0x{}", "a".repeat(40));
    assert!(find_matches(&text).is_empty());
}

#[test]
fn hex_run_of_wrong_length_is_no_address() {
    let text = format!("0x{}", "a".repeat(41));
    assert!(find_matches(&text).is_empty());
}

#[test]
fn btc_tx_hash_bare_64_hex() {
    let text = format!("txid {} confirmed", hex64());
    let ms = find_matches(&text);
    assert_eq!(ms.len(), 1);
    assert_eq!(ms[0].type_, "btc_tx_hash");
    assert_eq!(ms[0].value, hex64());
    assert_eq!(ms[0].index, 5);
}

#[test]
fn btc_tx_truncated_bare_hex_runs() {
    let ms = find_matches("dead...beef");
    assert_eq!(ms.len(), 1);
    assert_eq!(ms[0].type_, "btc_tx_truncated");
    assert_eq!(ms[0].value, "dead...beef");
}

#[test]
fn sol_tx_signature_long_base58_run() {
    let sig = "5".repeat(87);
    let ms = find_matches(&sig);
    assert_eq!(ms.len(), 1);
    assert_eq!(ms[0].type_, "sol_tx_sig");
    assert_eq!(ms[0].value, sig);
}

#[test]
fn sol_tx_truncated_base58_runs() {
    let ms = find_matches("abcz...wxyz");
    assert_eq!(ms.len(), 1);
    assert_eq!(ms[0].type_, "sol_tx_truncated");
    assert_eq!(ms[0].value, "abcz...wxyz");
}

#[test]
fn sol_address_base58_run() {
    let addr = "z".repeat(40);
    let ms = find_matches(&addr);
    assert_eq!(ms.len(), 1);
    assert_eq!(ms[0].type_, "sol");
    assert_eq!(ms[0].value, addr);
}

#[test]
fn sol_truncated_short_runs() {
    let ms = find_matches("zzz...zzz");
    assert_eq!(ms.len(), 1);
    assert_eq!(ms[0].type_, "sol_truncated");
    assert_eq!(ms[0].value, "zzz...zzz");
}

#[test]
fn btc_legacy_address() {
    let ms = find_matches("addr 1A1zP1eP5QGefi2DMPTfTL5SLmv7DivfNa!");
    assert_eq!(ms.len(), 1);
    assert_eq!(ms[0].type_, "btc_legacy");
    assert_eq!(ms[0].value, "1A1zP1eP5QGefi2DMPTfTL5SLmv7DivfNa");
    assert_eq!(ms[0].index, 5);
}

#[test]
fn btc_legacy_wins_over_sol_for_same_run() {
    // A 34-character base58 run led by `1` fits both the legacy and the
    // Solana shape; the Bitcoin family scans first and claims it.
    let ms = find_matches("1A1zP1eP5QGefi2DMPTfTL5SLmv7DivfNa");
    assert_eq!(ms.len(), 1);
    assert_eq!(ms[0].type_, "btc_legacy");
}

#[test]
fn btc_bech32_address() {
    let addr = "bc1qw508d6qejxtdg4y5r3zarvary0c5xw7kv8f3t4";
    let ms = find_matches(addr);
    assert_eq!(ms.len(), 1);
    assert_eq!(ms[0].type_, "btc_bech32");
    assert_eq!(ms[0].value, addr);
}

#[test]
fn btc_truncated_legacy_short_runs() {
    let ms = find_matches("1ab...cd");
    assert_eq!(ms.len(), 1);
    assert_eq!(ms[0].type_, "btc_truncated_legacy");
    assert_eq!(ms[0].value, "1ab...cd");
}

#[test]
fn btc_truncated_bech32_with_non_base58_chars() {
    let ms = find_matches("bc1l0ab...l0cd");
    assert_eq!(ms.len(), 1);
    assert_eq!(ms[0].type_, "btc_truncated_bech32");
    assert_eq!(ms[0].value, "bc1l0ab...l0cd");
}

#[test]
fn ens_name_simple() {
    let ms = find_matches("send it to alice.eth please");
    assert_eq!(ms.len(), 1);
    assert_eq!(ms[0].type_, "ens");
    assert_eq!(ms[0].value, "alice.eth");
    assert_eq!(ms[0].index, 11);
}

#[test]
fn ens_single_letter_label_is_kept() {
    let ms = find_matches("a.eth");
    assert_eq!(ms.len(), 1);
    assert_eq!(ms[0].type_, "ens");
    assert_eq!(ms[0].value, "a.eth");
}

#[test]
fn ens_two_letter_label_is_kept() {
    let ms = find_matches("ab.eth");
    assert_eq!(ms.len(), 1);
    assert_eq!(ms[0].value, "ab.eth");
}

#[test]
fn ens_upper_case_suffix_is_rejected() {
    assert!(find_matches("x.ETH").is_empty());
}

#[test]
fn ens_inner_label_only() {
    let ms = find_matches("foo.bar.eth");
    assert_eq!(ms.len(), 1);
    assert_eq!(ms[0].value, "bar.eth");
    assert_eq!(ms[0].index, 4);
}

#[test]
fn ens_hyphenated_label() {
    let ms = find_matches("a-b.eth");
    assert_eq!(ms.len(), 1);
    assert_eq!(ms[0].value, "a-b.eth");
}

#[test]
fn ens_label_may_not_end_with_hyphen() {
    assert!(find_matches("ab-.eth").is_empty());
}

#[test]
fn same_hash_with_and_without_prefix() {
    let text = format!("0x{} {}", hex64(), hex64());
    let ms = find_matches(&text);
    assert_eq!(ms.len(), 2);
    assert_eq!(ms[0].type_, "eth_tx_hash");
    assert_eq!(ms[1].type_, "btc_tx_hash");
}

#[test]
fn btc_legacy_length_bounds() {
    assert!(find_matches(&format!("1{}", "z".repeat(24))).is_empty());
    let ms = find_matches(&format!("1{}", "z".repeat(25)));
    assert_eq!(ms.len(), 1);
    assert_eq!(ms[0].type_, "btc_legacy");
    let ms = find_matches(&format!("1{}", "z".repeat(34)));
    assert_eq!(ms.len(), 1);
    assert_eq!(ms[0].type_, "btc_legacy");
}

#[test]
fn base58_run_of_35_after_lead_falls_to_sol() {
    // One character too long for the legacy shape, but a valid Solana-length
    // base58 run.
    let ms = find_matches(&format!("1{}", "z".repeat(35)));
    assert_eq!(ms.len(), 1);
    assert_eq!(ms[0].type_, "sol");
}

#[test]
fn sol_tx_signature_length_bounds() {
    assert!(find_matches(&"z".repeat(85)).is_empty());
    assert_eq!(find_matches(&"z".repeat(86))[0].type_, "sol_tx_sig");
    assert_eq!(find_matches(&"z".repeat(88))[0].type_, "sol_tx_sig");
    assert!(find_matches(&"z".repeat(89)).is_empty());
}

#[test]
fn truncated_run_length_bounds() {
    assert!(find_matches(&format!("0x{}...abcd", "a".repeat(13))).is_empty());
    let ms = find_matches(&format!("0x{}...abcd", "a".repeat(12)));
    assert_eq!(ms.len(), 1);
    assert_eq!(ms[0].type_, "eth_tx_truncated");
    assert!(find_matches("0xabcd...efg").is_empty());
}

#[test]
fn bech32_length_bounds() {
    let ms = find_matches(&format!("bc1{}", "q".repeat(59)));
    assert_eq!(ms.len(), 1);
    assert_eq!(ms[0].type_, "btc_bech32");
    assert!(find_matches(&format!("bc1{}", "q".repeat(60))).is_empty());
}

#[test]
fn ens_label_length_bounds() {
    let ms = find_matches(&format!("{}.eth", "z".repeat(63)));
    assert_eq!(ms.len(), 1);
    assert_eq!(ms[0].type_, "ens");
    assert!(find_matches(&format!("{}.eth", "z".repeat(64))).is_empty());
}

#[test]
fn ens_label_keeps_its_casing() {
    let ms = find_matches("Alice.eth");
    assert_eq!(ms.len(), 1);
    assert_eq!(ms[0].type_, "ens");
    assert_eq!(ms[0].value, "Alice.eth");
}
