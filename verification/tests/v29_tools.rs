use tuneitverse::ecu_database::{ChecksumInfo, EcuDbEntry, MapsXdfInfo, SecurityInfo};
use tuneitverse::v29_tools::{
    compare_bins, family_from_bin_or_state, identify_bin, printable_strings, resolved_family, sha256_hex,
};

fn fam(family: &str, display: &str, ids: &[&str], size: u32) -> EcuDbEntry {
    EcuDbEntry {
        ecu_family: family.into(),
        display_name: display.into(),
        part_numbers_or_os_ids: ids.iter().map(|s| s.to_string()).collect(),
        vehicles: vec![],
        hardware: String::new(),
        protocol: String::new(),
        bin_size_bytes: size,
        flash_memory_map: None,
        checksum: ChecksumInfo { kind: String::new(), description: String::new(), reference_files: vec![], routine: None, notes: None },
        security_access: SecurityInfo { kind: String::new(), reference: String::new(), levels: vec![] },
        maps_and_xdf: MapsXdfInfo { has_xdf: false, xdf_file: None, description: String::new(), kernel_for_flash: None, additional_defs: None, eeprom: None, refined_map_addrs: None },
        communication_kernels: None,
        notes: String::new(),
    }
}

fn db() -> Vec<EcuDbEntry> {
    vec![
        fam("P01_0411", "Holden LS1 P01", &["12225074 / 12200411"], 524288),
        fam("GM_P59", "GM P59", &["12587603"], 524288),
        fam("EDC16C41", "Bosch EDC16C41", &["0281011 23710-VS43B"], 2097152),
    ]
}

#[test]
fn unidentified_512k_is_not_p01() {
    let img = vec![0u8; 524288];
    assert!(resolved_family(&db(), &img).is_err());
}

#[test]
fn sha256_of_abc() {
    assert_eq!(sha256_hex(b"abc"), "ba7816bf8f01cfea414140de5dae2223b00361a396177a9cb410ff61f20015ad");
    assert_eq!(sha256_hex(b""), "e3b0c44298fc1c149afbf4c8996fb92427ae41e4649b934ca495991b7852b855");
}

#[test]
fn printable_runs() {
    let s = printable_strings(b"ab\x00hello\x01world!\xffxy", 5, 64);
    assert_eq!(s, vec!["hello".to_string(), "world!".to_string()]);
    let s = printable_strings(b"aaaaa\x00bbbbb\x00ccccc", 5, 2);
    assert_eq!(s.len(), 2);
}

#[test]
fn identify_by_os_string_and_size() {
    let mut img = vec![0u8; 524288];
    img[100..116].copy_from_slice(b"OS 12200411 LS1 ");
    let id = identify_bin(&db(), &img);
    assert_eq!(id.family.as_deref(), Some("P01_0411"));
    assert_eq!(id.family_by_os.as_deref(), Some("P01_0411"));
    assert_eq!(id.family_by_size.as_deref(), Some("P01_0411"));
    assert!(id.size_collision);
    assert_eq!(id.families_same_size, vec!["P01_0411".to_string(), "GM_P59".to_string()]);
    assert_eq!(id.os_id_hits.len(), 1);
    assert_eq!(id.os_id_hits[0].matched, "12200411");
    assert_eq!(id.display_name.as_deref(), Some("Holden LS1 P01"));
    assert!(id.gm_p01_os);
    assert!(!id.honda_os);
    assert!(id.correction_safe && id.write_allowed);
    assert_eq!(id.sha256.len(), 64);
    assert_eq!(resolved_family(&db(), &img).unwrap(), "P01_0411");
    let zero = identify_bin(&db(), &vec![0u8; 524288]);
    assert_eq!(zero.family, None);
    assert_eq!(zero.notes, "Size collides across catalog families. Confirm OS string before any corrector.");
}

#[test]
fn identify_honda_and_p59_refusals() {
    let mut img = vec![0u8; 524288];
    img[10..20].copy_from_slice(b"37820-PRB ");
    assert_eq!(resolved_family(&db(), &img).unwrap_err(), "Honda OS string. Write/compare refused.");
    let mut p59 = vec![0u8; 524288];
    p59[10..22].copy_from_slice(b"x 12587603 y");
    assert_eq!(identify_bin(&db(), &p59).family.as_deref(), Some("GM_P59"));
    assert_eq!(resolved_family(&db(), &p59).unwrap_err(), "GM_P59 write/compare refused. No measured checksum words or kernel.");
    assert_eq!(resolved_family(&db(), &[1, 2, 3]).unwrap_err(), "Unknown size — add JSON in reference/ecu_database/.");
    let edc = vec![0u8; 2097152];
    let id = identify_bin(&db(), &edc);
    assert_eq!(id.family.as_deref(), Some("EDC16C41"));
    assert_eq!(id.notes, "Size matched one family. Confirm OS ID against strings.");
    assert!(id.write_allowed);
}

#[test]
fn family_falls_back_to_session_state() {
    let blank = vec![0u8; 524288];
    let edc = vec![0u8; 2097152];
    assert_eq!(family_from_bin_or_state(&db(), &edc, Some("P01_0411"), None).unwrap(), "EDC16C41");
    assert_eq!(family_from_bin_or_state(&db(), &blank, Some("P01_0411"), Some("12587603")).unwrap(), "P01_0411");
    assert_eq!(family_from_bin_or_state(&db(), &blank, None, Some("12587603")).unwrap(), "GM_P59");
    let err = family_from_bin_or_state(&db(), &blank, None, Some("nothing")).unwrap_err();
    assert!(err.starts_with("Family unresolved: "));
    assert_eq!(err, format!("Family unresolved: {}", resolved_family(&db(), &blank).unwrap_err()));
}

#[test]
fn write_allowed_only_for_live_families() {
    let edc = identify_bin(&db(), &vec![0u8; 2097152]);
    assert_eq!(edc.family.as_deref(), Some("EDC16C41"));
    assert!(edc.write_allowed);
    let blank = identify_bin(&db(), &vec![0u8; 524288]);
    assert!(blank.size_collision);
    assert!(!blank.write_allowed);
    let p59_db = vec![fam("GM_P59", "GM P59", &["12587603"], 524288)];
    let p59 = identify_bin(&p59_db, &vec![0u8; 524288]);
    assert_eq!(p59.family.as_deref(), Some("GM_P59"));
    assert!(!p59.write_allowed);
    assert!(resolved_family(&p59_db, &vec![0u8; 524288]).is_err());
}

#[test]
fn compare_bins_reports_lengths_identity_and_digests() {
    let c = compare_bins(b"abc", b"abc");
    assert_eq!((c.len_a, c.len_b, c.identical), (3, 3, true));
    assert_eq!(c.sha256_a, "ba7816bf8f01cfea414140de5dae2223b00361a396177a9cb410ff61f20015ad");
    assert_eq!(c.sha256_b, c.sha256_a);
    let c = compare_bins(b"abc", b"abd");
    assert!(!c.identical);
    assert_ne!(c.sha256_a, c.sha256_b);
    let c = compare_bins(b"", b"ab");
    assert_eq!((c.len_a, c.len_b, c.identical), (0, 2, false));
    assert_eq!(c.sha256_a, "e3b0c44298fc1c149afbf4c8996fb92427ae41e4649b934ca495991b7852b855");
}

#[test]
fn identify_blank_512k_is_collision() {
    // Two catalog entries share the 512 KiB size; a blank image names neither.
    let ident = identify_bin(&db(), &vec![0u8; 524288]);
    assert!(ident.size_collision);
    assert!(ident.family.is_none());
}
