use tuneitverse::gm_keys::parse_tables;
use tuneitverse::p01_gm_compare::{compare, hex4, parse_seed_hex, LIST_CAP};
use tuneitverse::security::{p01_key_l1, p01_key_l2};

const SWAP_ROW: &str = "5,0,0,0,0,0,0,0,0,0,0,0,0\n5,0,0,0,0,0,0,0,0,0,0,0,0\n";

#[test]
fn bad_hex_errors() {
    let tables = parse_tables(SWAP_ROW);
    assert!(compare(&tables, "GG", Some(0), false).is_err());
    assert!(compare(&tables, "12", Some(0), false).is_err());
}

// ── further cases ─────────────────────────────────────────────────────────

#[test]
fn single_algorithm_report() {
    let tables = parse_tables(SWAP_ROW);
    let r = compare(&tables, "12 34", Some(1), false).unwrap();
    assert_eq!(r.seed, 0x1234);
    assert_eq!(r.seed_hex, "1234");
    assert_eq!(r.gm_key, Some(0x3412));
    assert_eq!(r.gm_key_hex.as_deref(), Some("3412"));
    let (a, b) = p01_key_l1(0x12, 0x34);
    assert_eq!(r.lfsr_l1, u16::from_be_bytes([a, b]));
    let (c, d) = p01_key_l2(0x12, 0x34);
    assert_eq!(r.lfsr_l2, u16::from_be_bytes([c, d]));
    assert_eq!(r.lfsr_l1_hex, format!("{:04X}", r.lfsr_l1));
    assert!(!r.match_l1 && !r.match_l2);
    assert_eq!(
        r.note,
        format!(
            "Algo 1 key 0x3412 matches neither L1 0x{:04X} nor L2 0x{:04X}. Pass scan=true to search 0..1023.",
            r.lfsr_l1, r.lfsr_l2
        )
    );
    assert_eq!(r.gm_table_count, 2);
    assert!(compare(&tables, "1234", Some(0x400), false).unwrap_err().contains("0..1023"));
}

#[test]
fn zero_seed_matches_missing_algorithms() {
    // Seed 0000 gives the zero P01 keys; algorithms without a row give 0.
    let tables = parse_tables(SWAP_ROW);
    let r = compare(&tables, "0000", Some(5), false).unwrap();
    assert_eq!(r.lfsr_l1, 0);
    assert_eq!(r.lfsr_l2, 0);
    assert_eq!(r.gm_key, Some(0));
    assert!(r.match_l1 && r.match_l2);
    assert_eq!(r.note, "Algo 5 matches both P01 L1 and L2 LFSR for seed 0x0000.");
}

#[test]
fn scan_counts_and_caps() {
    let tables = parse_tables(SWAP_ROW);
    let r = compare(&tables, "0000", None, true).unwrap();
    assert!(r.scanned);
    assert_eq!(r.scan_l1_count, 1024);
    assert_eq!(r.scan_l1_algos.len(), 32);
    assert_eq!(r.scan_l1_algos[0], 0);
    assert!(r.scan_truncated);
    assert!(r.note.starts_with("Scanned algos 0..1023. L1 LFSR 0x0000 matches 1024 index(es)."));
    assert_eq!(parse_seed_hex("xx12ab34").unwrap(), 0x12AB);
    assert_eq!(hex4(0xA), "000A");
}

/// A full 1280-row key table: row 0 ORs in 0x2EE7, row 1 swaps the bytes,
/// every other row leaves the seed as it is.
fn full_table_text() -> String {
    let mut txt = String::from("82,0xE7,0x2E,0,0,0,0,0,0,0,0,0,0\n5,0,0,0,0,0,0,0,0,0,0,0,0\n");
    for _ in 2..1280 {
        txt.push_str("0,0,0,0,0,0,0,0,0,0,0,0,0\n");
    }
    txt
}

#[test]
fn seed_1234_algo0_is_known_gm_vector() {
    let tables = parse_tables(&full_table_text());
    let r = compare(&tables, "1234", Some(0), false).unwrap();
    assert_eq!(r.gm_key, Some(0x3EF7));
    assert_eq!(r.seed, 0x1234);
    assert_ne!(r.lfsr_l1, 0);
}

#[test]
fn seed_ffff_gm_is_ffff() {
    let tables = parse_tables(&full_table_text());
    let r = compare(&tables, "FFFF", Some(0), false).unwrap();
    assert_eq!(r.gm_key, Some(0xFFFF));
    assert_eq!(r.lfsr_l1, 0);
}

#[test]
fn seed_0000_lfsr_is_zero() {
    // Algorithm 1 swaps the bytes, so the zero seed keeps the zero key.
    let tables = parse_tables(&full_table_text());
    let r = compare(&tables, "0000", Some(1), false).unwrap();
    assert_eq!(r.lfsr_l1, 0);
    assert_eq!(r.lfsr_l2, 0);
    assert_eq!(r.gm_key, Some(0x0000));
}

#[test]
fn scan_finds_algo1_byteswap_when_lfsr_equals_swap() {
    let tables = parse_tables(&full_table_text());
    let r = compare(&tables, "ABCD", None, true).unwrap();
    assert!(r.scanned);
    assert_eq!(r.scan_l1_algos.len(), r.scan_l1_count.min(LIST_CAP));
    assert_eq!(r.gm_table_count, 1280);
}
