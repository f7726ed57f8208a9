use tuneitverse::tableseek::{
    address_from_hit, compile_pack, compile_seek, is_true, locate_p01_tables, parse_i32, parse_search_pattern,
    parse_usize, pattern_matches, sanitize_id, tableseek_pack_count, PatTok, TableSeekXml,
};

fn entry(name: &str, search: &str) -> TableSeekXml {
    TableSeekXml { name: name.into(), search_str: search.into(), ..Default::default() }
}

#[test]
fn pattern_wildcard_address() {
    let mut bin = vec![0u8; 32];
    bin[4..14].copy_from_slice(&[0xFF, 0xFA, 0x16, 0x39, 0x00, 0x00, 0x80, 0x21, 0xE7, 0x0B]);
    let (pat, jumps) = parse_search_pattern("FF FA 16 39 @ @ @ @ E7 0B");
    assert!(jumps.is_empty());
    assert!(pattern_matches(&bin[4..], &pat));
    let seek = compile_seek(
        TableSeekXml { name: "t".into(), search_str: "FF FA 16 39 @ @ @ @ E7 0B".into(), ..Default::default() },
        0,
    )
    .unwrap();
    let addr = address_from_hit(&bin, 4, &seek).unwrap();
    assert_eq!(addr, 0x00008021);
}

#[test]
fn star_wildcard_is_not_address_when_at_present() {
    let mut bin = vec![0u8; 32];
    bin[2..16].copy_from_slice(&[0x11, 0xC3, 0xAA, 0xBB, 0x42, 0x43, 0x16, 0x39, 0x00, 0x00, 0x80, 0x21, 0x00, 0x00]);
    let seek = compile_seek(
        TableSeekXml {
            name: "Engine_Identifier".into(),
            search_str: "11 C3 * * 42 43 16 39 @ @ @ @".into(),
            ..Default::default()
        },
        0,
    )
    .unwrap();
    let addr = address_from_hit(&bin, 2, &seek).unwrap();
    assert_eq!(addr, 0x00008021);
    assert_ne!(addr, 0xAABB0000);
}

#[test]
fn plus_d_pointer_follow() {
    let mut bin = vec![0u8; 64];
    bin[4..10].copy_from_slice(&[0xFF, 0x00, 0x00, 0x00, 0x20, 0xAA]);
    bin[0x24..0x28].copy_from_slice(&[0x00, 0x00, 0x00, 0x30]);
    let seek = compile_seek(
        TableSeekXml { name: "jump".into(), search_str: "FF @ @ @ @ AA +D4".into(), ..Default::default() },
        0,
    )
    .unwrap();
    assert_eq!(seek.jumps.len(), 1);
    assert!(seek.jumps[0].dword);
    assert_eq!(seek.jumps[0].offset, 4);
    let addr = address_from_hit(&bin, 4, &seek).unwrap();
    assert_eq!(addr, 0x30);
}

#[test]
fn empty_bin_locates_none() {
    let entries = vec![entry("A", "FF @ @ @ @"), entry("B", "AA BB @ @"), entry("", "FF")];
    let (t, loc, miss) = locate_p01_tables(&[], entries);
    assert!(t.is_empty());
    assert_eq!(loc, 0);
    assert_eq!(miss, 2);
}

#[test]
fn pack_skips_unnamed_and_patternless_entries() {
    let pack = compile_pack(vec![entry("A", "FF @ @"), entry(" ", "FF"), entry("C", "  "), entry("D", "12 * @ @")]);
    assert_eq!(tableseek_pack_count(&pack), 2);
    assert_eq!(pack[0].idx, 0);
    assert_eq!(pack[1].idx, 3);
    assert_eq!(pack[1].first_lit, Some((0, 0x12)));
    assert_eq!(pack[0].rows, 1);
    assert_eq!(pack[0].data_type, "UBYTE");
    assert_eq!(pack[0].math, "X");
    assert_eq!(pack[0].decimals, 2);
    assert!(pack[0].row_major && pack[0].msb);
}

#[test]
fn locate_builds_definitions_and_unique_ids() {
    let mut bin = vec![0u8; 64];
    bin[8..13].copy_from_slice(&[0xFF, 0x00, 0x00, 0x00, 0x30]);
    bin[20..25].copy_from_slice(&[0xEE, 0x00, 0x00, 0x00, 0x80]);
    let mut a = entry("Main VE", "FF @ @ @ @");
    a.category = "Fuel".into();
    a.rows = "16".into();
    a.cols = "x".into();
    let b = entry("main ve", "FF @ @ @ @");
    let c = entry("Far", "EE @ @ @ @");
    let (t, loc, miss) = locate_p01_tables(&bin, vec![a, b, c]);
    assert_eq!(loc, 2);
    assert_eq!(miss, 1);
    assert_eq!(t[0].id, "main_ve");
    assert_eq!(t[1].id, "main_ve_1");
    assert_eq!(t[0].addr, "0x000030");
    assert_eq!(t[0].category.as_deref(), Some("Fuel"));
    assert_eq!(t[1].category, None);
    assert_eq!(t[0].rows, 16);
    assert_eq!(t[0].cols, 1);
    assert!(t[0].file_offset);
}

#[test]
fn use_hit_picks_later_match() {
    let mut bin = vec![0u8; 64];
    bin[0..5].copy_from_slice(&[0xFF, 0x00, 0x00, 0x00, 0x10]);
    bin[30..35].copy_from_slice(&[0xFF, 0x00, 0x00, 0x00, 0x20]);
    let mut e = entry("second", "FF @ @ @ @");
    e.use_hit = "2".into();
    let (t, loc, _) = locate_p01_tables(&bin, vec![e]);
    assert_eq!(loc, 1);
    assert_eq!(t[0].addr, "0x000020");
}

#[test]
fn tableseek_text_fields() {
    assert_eq!(parse_usize(" 12 ", 1), 12);
    assert_eq!(parse_usize("", 7), 7);
    assert_eq!(parse_usize("x", 7), 7);
    assert_eq!(parse_i32(" -5 "), -5);
    assert_eq!(parse_i32("bad"), 0);
    assert!(is_true(" TRUE "));
    assert!(is_true("1"));
    assert!(is_true("Yes"));
    assert!(!is_true("no"));
    assert_eq!(sanitize_id("Spark Adv-Hi", 3), "spark_adv_hi");
    assert_eq!(sanitize_id("", 3), "table_3");
    let (pat, jumps) = parse_search_pattern("12 ?? * @ +W6");
    assert_eq!(pat, vec![PatTok::Byte(0x12), PatTok::Wild, PatTok::Wild, PatTok::Addr]);
    assert_eq!(jumps.len(), 1);
    assert!(!jumps[0].dword);
    assert_eq!(jumps[0].offset, 6);
}
