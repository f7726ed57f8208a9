use tuneitverse::seed_key::{compute_seed_key, hex_encode, hex_nibble, offline_seed_key, parse_seed_hex};
use tuneitverse::seed_tables::{lookup, SeedPair, SeedTableFile};
use tuneitverse::security::{bosch_key_from_seed, p01_key_l1, p01_key_l2};

fn pair(family: &str, seed: &str, key: &str, level: Option<&str>) -> SeedPair {
    SeedPair {
        family: family.to_string(),
        seed_hex: seed.to_string(),
        key_hex: key.to_string(),
        level: level.map(|s| s.to_string()),
        notes: None,
    }
}

#[test]
fn miss_returns_none() {
    let t = SeedTableFile::default();
    assert!(lookup(&t, "EDC17_COMMON", &[0x12, 0x34], Some("1")).is_none());
}

// ── further cases ─────────────────────────────────────────────────────────

#[test]
fn lookup_rules() {
    let t = SeedTableFile {
        version: Some("1".into()),
        pairs: vec![
            pair("EDC17", "12 34", "abc", None),
            pair("edc17", "1234", "AB-CD", Some("1")),
            pair("EDC17", "1234", "EEFF", None),
        ],
    };
    // odd key digits are skipped; level mismatch is skipped when both are given
    assert_eq!(lookup(&t, "EDC17_COMMON", &[0x12, 0x34], Some("1")), Some(vec![0xAB, 0xCD]));
    assert_eq!(lookup(&t, "EDC17_COMMON", &[0x12, 0x34], Some("2")), Some(vec![0xEE, 0xFF]));
    assert_eq!(lookup(&t, "MED17", &[0x12, 0x34], None), None);
    assert_eq!(lookup(&t, "edc17", &[0x12, 0x35], None), None);
}

#[test]
fn seed_text_helpers() {
    assert_eq!(parse_seed_hex("ABC").unwrap(), vec![0x0A, 0xBC]);
    assert_eq!(parse_seed_hex("12 34").unwrap(), vec![0x12, 0x34]);
    assert_eq!(parse_seed_hex("zz").unwrap_err(), "Seed hex is empty");
    assert_eq!(hex_nibble(b'f'), Ok(15));
    assert_eq!(hex_nibble(b'g').unwrap_err(), "Invalid hex digit g");
    assert_eq!(hex_encode(&[0x0A, 0xFF]), "0AFF");
}

#[test]
fn offline_calculator() {
    let k = offline_seed_key("p01_0411", "1234", Some("Flash")).unwrap();
    assert_eq!(k.algo, "gm_p01_lfsr16");
    let (a, b) = p01_key_l2(0x12, 0x34);
    assert_eq!(k.key, vec![a, b]);
    let k = offline_seed_key("P59", "1234", None).unwrap();
    let (a, b) = p01_key_l1(0x12, 0x34);
    assert_eq!(k.key, vec![a, b]);
    assert!(offline_seed_key("GM", "12", None).unwrap_err().contains("at least 2 bytes"));
    let k = offline_seed_key("EDC16C41", "DEADBEEF", None).unwrap();
    assert_eq!(k.algo, "bosch_family_dispatcher");
    assert_eq!(k.key, bosch_key_from_seed(&[0xDE, 0xAD, 0xBE, 0xEF], "EDC16C41"));
}

#[test]
fn table_backed_calculator() {
    let gm = tuneitverse::gm_keys::parse_tables("5,0,0,0,0,0,0,0,0,0,0,0,0\n5,0,0,0,0,0,0,0,0,0,0,0,0\n");
    let empty = SeedTableFile::default();
    assert_eq!(
        compute_seed_key(&empty, &gm, "123", None, None, None).err().unwrap(),
        "seed_hex must be an even-length hex string"
    );
    let a = compute_seed_key(&empty, &gm, "1234", None, None, Some(1)).unwrap();
    assert_eq!(a.algo, "gm_2byte_001");
    assert_eq!(a.key, vec![0x34, 0x12]);
    assert_eq!(a.gm_algo, Some(1));
    let a = compute_seed_key(&empty, &gm, "1234", None, Some("2"), None).unwrap();
    assert_eq!(a.algo, "p01_lfsr16");
    assert_eq!(a.family, "P01_0411");
    let (x, y) = p01_key_l2(0x12, 0x34);
    assert_eq!(a.key, vec![x, y]);
    let a = compute_seed_key(&empty, &gm, "1234", Some("MED17"), None, None).unwrap();
    assert_eq!(a.algo, "med17_starter");
    assert!(!a.verified);
    let t = SeedTableFile { version: None, pairs: vec![pair("P01", "1234", "0102", Some("1"))] };
    let a = compute_seed_key(&t, &gm, "12 34", None, None, None).unwrap();
    assert_eq!(a.algo, "measured_table");
    assert_eq!(a.key, vec![1, 2]);
    assert_eq!(a.seed_hex, "1234");
}

#[test]
fn measured_pair_wins_over_algo_index() {
    let gm = tuneitverse::gm_keys::parse_tables("5,0,0,0,0,0,0,0,0,0,0,0,0\n5,0,0,0,0,0,0,0,0,0,0,0,0\n");
    let t = SeedTableFile { version: None, pairs: vec![pair("P01", "1234", "0102", Some("1"))] };
    let a = compute_seed_key(&t, &gm, "1234", None, None, Some(1)).unwrap();
    assert_eq!(a.algo, "measured_table");
    assert!(a.verified);
    assert_eq!(a.key, vec![1, 2]);
    assert_eq!(a.gm_algo, None);
}

#[test]
fn seed_hex_text_reads_back() {
    for seed in [vec![0x00u8], vec![0x12, 0x34], vec![0xDE, 0xAD, 0xBE, 0xEF], vec![0x0F, 0xF0, 0x7A]] {
        assert_eq!(parse_seed_hex(&hex_encode(&seed)).unwrap(), seed);
    }
}
