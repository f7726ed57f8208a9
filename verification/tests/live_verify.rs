use tuneitverse::checksum::crc32_ieee;
use tuneitverse::live_verify::{backup_from_windows, compare_windows, LiveWindow};

fn win(label: &str, offset: usize, data: Vec<u8>) -> LiveWindow {
    LiveWindow { label: label.to_string(), offset, data, method: "VPW Mode 3C".to_string() }
}

#[test]
fn compare_windows_cases() {
    let img: Vec<u8> = (0..64u8).collect();
    let mut logs = Vec::new();
    assert!(compare_windows(&img, &[], &mut logs).unwrap_err().starts_with("No Mode 23"));
    assert!(logs.is_empty());
    let (crc, ok) = compare_windows(&img, &[win("cal_start", 0, (0..32u8).collect())], &mut logs).unwrap();
    assert_eq!(crc, crc32_ieee(&img));
    assert!(ok);
    assert_eq!(logs[0], "Live window cal_start @0x000000 32 bytes via VPW Mode 3C");
    assert_eq!(logs[1], format!("Live compare 32 / 32 bytes (verified_live=true) expected_crc=0x{:08X}", crc));
    let mut logs = Vec::new();
    let (_, ok) = compare_windows(&img, &[win("w", 60, vec![60, 61, 0, 63, 1, 1])], &mut logs).unwrap();
    assert!(!ok);
    assert!(logs[1].starts_with("Live compare 3 / 4 bytes (verified_live=false)"));
    let mut logs = Vec::new();
    assert_eq!(
        compare_windows(&img, &[win("far", 100, vec![1])], &mut logs).unwrap_err(),
        "Windows returned but none overlapped the written image."
    );
}

#[test]
fn crc32_ieee_check_value() {
    assert_eq!(crc32_ieee(b"123456789"), 0xCBF4_3926);
}

#[test]
fn backup_summary() {
    let b = backup_from_windows(&[]);
    assert!(b.failed);
    assert_eq!(b.notes, "No Mode 23 / 3C windows. Not a full-image backup.");
    let b = backup_from_windows(&[win("a", 0, vec![1, 2]), win("b", 9, vec![3])]);
    assert!(!b.failed);
    assert_eq!(b.path, "live-windows:2");
    assert_eq!(b.bytes, 3);
    assert_eq!(b.crc32, Some(crc32_ieee(&[1, 2, 3])));
    assert_eq!(b.notes, "Collected 3 bytes across 2 live windows. PartialDidOnly \u{2014} not a full flash dump.");
}
