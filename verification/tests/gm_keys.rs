use tuneitverse::gm_keys::{gm_2byte_key, key_algo, parse_tables, parse_token, table_count};

const SAMPLE: &str = "// algo 0\n0x05,0x00,0x00, 0x14,0x12,0x34, 0x00,0x00,0x00, 0x00,0x00,0x00, 0x00\n\
5, 0, 0, 0, 0, 0, 0, 0, 0, 0, 0, 0, 0\r\n\
  \n\
0x05,0x00,0x00\n\
FF,0A,1,2,3,4,5,6,7,8,9,10,11,12,13";

#[test]
fn ffff_seed_is_ffff() {
    let tables = parse_tables(SAMPLE);
    assert_eq!(gm_2byte_key(&tables, 0, 0xFFFF), 0xFFFF);
    assert_eq!(gm_2byte_key(&tables, 1, 0xFFFF), 0xFFFF);
}

#[test]
fn algo_out_of_range_is_zero() {
    let tables = parse_tables(SAMPLE);
    assert_eq!(gm_2byte_key(&tables, 0x400, 0x1234), 0);
}

// ── further cases ─────────────────────────────────────────────────────────

#[test]
fn table_text_rows() {
    let tables = parse_tables(SAMPLE);
    assert_eq!(table_count(&tables), 3);
    assert_eq!(tables[0], [0x05, 0, 0, 0x14, 0x12, 0x34, 0, 0, 0, 0, 0, 0, 0]);
    assert_eq!(tables[1], [5, 0, 0, 0, 0, 0, 0, 0, 0, 0, 0, 0, 0]);
    assert_eq!(tables[2], [0xFF, 0x0A, 1, 2, 3, 4, 5, 6, 7, 8, 9, 10, 11]);
    assert_eq!(table_count(&parse_tables("")), 0);
}

#[test]
fn tokens() {
    let t = |s: &str| parse_token(&s.chars().collect::<Vec<char>>());
    assert_eq!(t("0x1F"), Some(0x1F));
    assert_eq!(t("0X1f"), Some(0x1F));
    assert_eq!(t("255"), Some(255));
    assert_eq!(t("256"), None);
    assert_eq!(t("+7"), Some(7));
    assert_eq!(t("AB"), Some(0xAB));
    assert_eq!(t("0x"), None);
    assert_eq!(t("-1"), None);
    assert_eq!(t("12G"), None);
}

#[test]
fn key_interpreter_ops() {
    // rotate by 8 swaps the bytes; op 20 adds hi:lo.
    let tables = parse_tables(SAMPLE);
    assert_eq!(gm_2byte_key(&tables, 1, 0x1234), 0x3412);
    assert_eq!(gm_2byte_key(&tables, 0, 0x1234), 0x3412u16.wrapping_add(0x1234));
    assert_eq!(gm_2byte_key(&tables, 3, 0x1234), 0);
    // op 42 with hi < lo: two's complement.
    let row = [42, 0, 1, 0, 0, 0, 0, 0, 0, 0, 0, 0, 0];
    assert_eq!(key_algo(0x0001, &row), 0xFFFF);
    // op 42 with hi >= lo: complement.
    let row = [42, 1, 0, 0, 0, 0, 0, 0, 0, 0, 0, 0, 0];
    assert_eq!(key_algo(0x0001, &row), 0xFFFE);
    // op 152 subtracts hi:lo, op 248 subtracts lo:hi, op 82 ors lo:hi.
    let row = [152, 0x00, 0x01, 248, 0x01, 0x00, 82, 0x00, 0x80, 0, 0, 0, 0];
    assert_eq!(key_algo(0x0010, &row), (0x0010u16 - 1 - 1) | 0x8000);
    // op 76 rotates left by hi % 16, op 107 rotates right by lo % 16.
    let row = [76, 0x14, 0, 107, 0, 0x02, 0, 0, 0, 0, 0, 0, 0];
    assert_eq!(key_algo(0x0001, &row), 0x0001u16.rotate_left(4).rotate_right(2));
    // op 126 swaps and adds the larger-first word; 55/117 add lo:hi.
    let row = [126, 0x01, 0x02, 55, 0x01, 0x00, 117, 0x00, 0x01, 0, 0, 0, 0];
    assert_eq!(key_algo(0x1234, &row), 0x3412u16.wrapping_add(0x0201).wrapping_add(1).wrapping_add(0x0100));
}

/// A full 1280-row key table: row 0 ORs in 0x2EE7, row 1 swaps the bytes,
/// every other row leaves the seed as it is.
fn full_table_text() -> String {
    let mut txt = String::from("82,0xE7,0x2E,0,0,0,0,0,0,0,0,0,0\n5,0,0,0,0,0,0,0,0,0,0,0,0\n");
    for _ in 2..1280 {
        txt.push_str("0,0,0,0,0,0,0,0,0,0,0,0,0\n");
    }
    txt
}

#[test]
fn loads_1280_tables() {
    let tables = parse_tables(&full_table_text());
    assert_eq!(table_count(&tables), 1280);
}

#[test]
fn algo0_known_vectors() {
    let tables = parse_tables(&full_table_text());
    assert_eq!(gm_2byte_key(&tables, 0, 0x0000), 0x2EE7);
    assert_eq!(gm_2byte_key(&tables, 0, 0x0001), 0x2EE7);
    assert_eq!(gm_2byte_key(&tables, 0, 0x1234), 0x3EF7);
    assert_eq!(gm_2byte_key(&tables, 0, 0xABCD), 0xAFEF);
}

#[test]
fn algo1_is_byte_swap() {
    let tables = parse_tables(&full_table_text());
    assert_eq!(gm_2byte_key(&tables, 1, 0x1234), 0x3412);
    assert_eq!(gm_2byte_key(&tables, 1, 0xABCD), 0xCDAB);
}
