use tuneitverse::ecu_database::{
    catalog_status, get_ecu_by_bin_size, get_ecu_by_family, get_ecu_by_os_id, get_tables_for_bin_size,
    list_supported_ecu_families, write_families, write_path_live, ChecksumInfo, EcuDbEntry, MapsXdfInfo, SecurityInfo,
};

pub fn entry(family: &str, display: &str, ids: &[&str], size: u32, addrs: Option<Vec<(&str, &str)>>) -> EcuDbEntry {
    EcuDbEntry {
        ecu_family: family.into(),
        display_name: display.into(),
        part_numbers_or_os_ids: ids.iter().map(|s| s.to_string()).collect(),
        vehicles: vec![],
        hardware: "hw".into(),
        protocol: "UDS".into(),
        bin_size_bytes: size,
        flash_memory_map: None,
        checksum: ChecksumInfo { kind: "crc".into(), description: String::new(), reference_files: vec![], routine: None, notes: None },
        security_access: SecurityInfo { kind: "seed".into(), reference: String::new(), levels: vec![] },
        maps_and_xdf: MapsXdfInfo {
            has_xdf: false,
            xdf_file: None,
            description: String::new(),
            kernel_for_flash: None,
            additional_defs: None,
            eeprom: None,
            refined_map_addrs: addrs.map(|v| v.into_iter().map(|(k, a)| (k.to_string(), a.to_string())).collect()),
        },
        communication_kernels: None,
        notes: String::new(),
    }
}

fn catalog() -> Vec<EcuDbEntry> {
    vec![
        entry("P01_0411", "Holden LS1 P01", &["12225074", "OS 12200411"], 524288, None),
        entry("EDC16C41", "Bosch EDC16C41 Patrol", &["23710-VS43B"], 2097152, Some(vec![("driver_wish", "0x1C0000"), ("boost_target", "0x1C4000"), ("egr_map", "7")])),
        entry("ME7_COMMON", "Bosch ME7", &["8D0907557"], 1048576, None),
        entry("DELPHI_DCM", "Delphi DCM", &[], 2097152, Some(vec![("driver_wish", "0x2000"), ("fuel_ve", "0x3000")])),
        entry("SIEMENS_SID803", "Siemens SID803", &[], 2097152, None),
        entry("HONDA_KEIHIN", "Honda Keihin", &["37820-PRB"], 524288, None),
    ]
}

#[test]
fn catalog_includes_me7_and_delphi() {
    let db = catalog();
    let fams = list_supported_ecu_families(&db);
    assert!(fams.iter().any(|f| f == "ME7_COMMON"));
    assert!(fams.iter().any(|f| f == "DELPHI_DCM"));
    assert!(fams.iter().any(|f| f == "SIEMENS_SID803"));
    assert!(fams.iter().any(|f| f == "HONDA_KEIHIN"));
    assert!(get_ecu_by_bin_size(&db, 1048576).is_some());
}

#[test]
fn lookups_by_family_os_and_size() {
    let db = catalog();
    assert_eq!(get_ecu_by_family(&db, "me7_common").unwrap().display_name, "Bosch ME7");
    assert!(get_ecu_by_family(&db, "NOPE").is_none());
    assert_eq!(get_ecu_by_os_id(&db, "12200411").unwrap().ecu_family, "P01_0411");
    assert_eq!(get_ecu_by_os_id(&db, "patrol").unwrap().ecu_family, "EDC16C41");
    assert!(get_ecu_by_os_id(&db, "XYZ123").is_none());
    assert_eq!(get_ecu_by_bin_size(&db, 2097152).unwrap().ecu_family, "EDC16C41");
    assert!(get_ecu_by_bin_size(&db, 12).is_none());
}

#[test]
fn refined_tables_first_of_each_id() {
    let db = catalog();
    let t = get_tables_for_bin_size(&db, 2097152);
    let ids: Vec<&str> = t.iter().map(|d| d.id.as_str()).collect();
    assert_eq!(ids, vec!["driver-wish", "boost-target", "egr-map", "fuel-ve"]);
    assert_eq!(t[0].addr, "0x1C0000");
    assert_eq!(t[0].description, "Driver Wish (Torque) — EDC16C41");
    assert_eq!((t[0].rows, t[0].cols), (16, 16));
    assert_eq!(t[2].addr, "7");
    assert_eq!(t[3].description, "Fuel / VE — DELPHI_DCM");
    assert_eq!(t[3].math, "x*0.01");
    assert_eq!(t[1].category.as_deref(), Some("Boost"));
}

#[test]
fn fallback_tables_by_size() {
    let db = catalog();
    let p01 = get_tables_for_bin_size(&db, 524288);
    assert_eq!(p01.len(), 3);
    assert_eq!(p01[0].id, "ve-main");
    assert_eq!(p01[1].math, "(x-40)/2");
    assert_eq!((p01[1].rows, p01[1].cols), (12, 14));
    assert_eq!(get_tables_for_bin_size(&db, 131072).len(), 3);
    let me7 = get_tables_for_bin_size(&db, 1048576);
    assert_eq!(me7[1].addr, "0x1A000");
    let none = get_tables_for_bin_size(&[], 2097152);
    assert_eq!(none[1].id, "inj-quantity");
    assert!(get_tables_for_bin_size(&db, 77).is_empty());
}

#[test]
fn live_write_families() {
    assert_eq!(write_families(), vec!["P01_0411".to_string(), "EDC16C41".to_string()]);
    assert!(write_path_live("P01_0411"));
    assert!(write_path_live("EDC16C41"));
    assert!(!write_path_live("GM_P59"));
    assert!(!write_path_live("p01_0411"));
    assert_eq!(catalog_status("EDC16C41"), "write path live");
    assert_eq!(catalog_status("HONDA_KEIHIN"), "identify/report — write blocked until measured corrector");
}
