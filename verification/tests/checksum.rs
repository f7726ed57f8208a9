use tuneitverse::checksum::{
    correct_and_validate_checksums, correct_checksums, crc32, validate_bin_checksums_summary,
    validate_checksums,
};
use tuneitverse::sizes::{p01_block_count, CAL_IMAGE_SIZE, EDC16_FLASH_SIZE, P01_FULL_IMAGE_SIZE};

fn zero_image_p01() -> Vec<u8> {
    vec![0u8; CAL_IMAGE_SIZE]
}

#[test]
fn validate_unknown_size_is_report_only() {
    let r = validate_checksums(&vec![0u8; 100]).expect("unknown size must report, not error");
    assert_eq!(r.ecu_family, "UNKNOWN");
    assert!(r.method_used.contains("report-only"));
    assert!(correct_checksums(&vec![0u8; 100]).is_err());
}

#[test]
fn p01_512kb_is_supported() {
    let img = vec![0u8; P01_FULL_IMAGE_SIZE];
    let report = validate_checksums(&img).expect("512KB P01 must be accepted");
    assert_eq!(report.regions.len(), 64);
    assert!(report.all_valid);
    let mut dirty = img;
    dirty[0x3FFE] = 0x12;
    dirty[0x3FFF] = 0x34;
    let fixed = correct_checksums(&dirty).unwrap();
    assert!(fixed.report.all_valid);
    assert!(fixed.report.fixed_count >= 1);
    assert_eq!(fixed.data.len(), P01_FULL_IMAGE_SIZE);
}

#[test]
fn correct_makes_valid_p01() {
    let img = zero_image_p01();
    let corrected = correct_checksums(&img).unwrap();
    assert!(corrected.report.all_valid);
    assert_eq!(corrected.report.regions.len(), 16);
    let mut dirty = img;
    dirty[0x3FFE] = 0x12;
    dirty[0x3FFF] = 0x34;
    let fixed = correct_checksums(&dirty).unwrap();
    assert!(fixed.report.all_valid);
    assert!(fixed.report.fixed_count >= 1);
}

#[test]
fn edc16_size_supported() {
    let img = vec![0u8; EDC16_FLASH_SIZE];
    let _ = validate_checksums(&img).unwrap_or_else(|e| panic!("EDC16 size not supported: {}", e));
}

#[test]
fn honda_os_blocks_p01_corrector() {
    let mut img = vec![0u8; P01_FULL_IMAGE_SIZE];
    img[0x100..0x108].copy_from_slice(b"37820-PR");
    let report = validate_checksums(&img).unwrap();
    assert_eq!(report.ecu_family, "HONDA_KEIHIN");
    assert!(report.method_used.contains("blocked"));
    assert!(correct_checksums(&img).is_err());
}

#[test]
fn crc32_check_value() {
    assert_eq!(crc32(b"123456789"), 0xCBF4_3926);
    assert_eq!(crc32(b""), 0);
}

#[test]
fn p01_correction_fixes_only_checksum_word_and_validates() {
    let mut img = vec![0u8; CAL_IMAGE_SIZE];
    img[0x10] = 0x01;
    img[0x11] = 0x02;
    let fixed = correct_checksums(&img).unwrap();
    // Only the main-cal checksum word of block 0 changes: 0 - 0x0102.
    assert_eq!(fixed.data[0x3FFE], 0xFE);
    assert_eq!(fixed.data[0x3FFF], 0xFE);
    assert_eq!(fixed.report.fixed_count, 1);
    assert_eq!(fixed.report.regions[0].corrected_cs, 0xFEFE);
    let diffs = img.iter().zip(fixed.data.iter()).filter(|(a, b)| a != b).count();
    assert_eq!(diffs, 2);
    let again = validate_checksums(&fixed.data).unwrap();
    assert!(again.all_valid);
    // Correcting the corrected image changes nothing.
    let twice = correct_checksums(&fixed.data).unwrap();
    assert_eq!(twice.data, fixed.data);
    assert_eq!(twice.report.fixed_count, 0);
}

#[test]
fn correct_and_validate_keeps_valid_image() {
    let img = vec![0u8; CAL_IMAGE_SIZE];
    let r = correct_and_validate_checksums(&img).unwrap();
    assert_eq!(r.data, img);
    assert_eq!(r.report.fixed_count, 0);
    assert_eq!(r.report.valid_count, 16);
}

#[test]
fn summary_lists_regions() {
    let img = vec![0u8; CAL_IMAGE_SIZE];
    let s = validate_bin_checksums_summary(&img).unwrap();
    assert!(s.starts_with("Checksum validation for P01_0411 (131072 bytes) using Additive16\n"));
    assert!(s.contains("Regions checked: 16\n"));
    assert!(s.contains("  OK @0x003FFE: orig=0x00000000 corr=0x00000000 [Additive16] (was valid: true)\n"));
    assert!(s.contains("OK All checksums VALID"));
}

#[test]
fn unknown_size_report_names_size() {
    let r = validate_checksums(&vec![0u8; 100]).unwrap();
    assert_eq!(r.method_used, "report-only: no verified corrector for 100 bytes");
    let e = correct_checksums(&vec![0u8; 100]).unwrap_err();
    assert_eq!(e, "Unsupported size for correction: 100");
}

#[test]
fn edc16_correction_makes_every_crc_region_valid() {
    let mut img = vec![0u8; EDC16_FLASH_SIZE];
    for (i, b) in img.iter_mut().enumerate() {
        *b = (i.wrapping_mul(31) ^ (i >> 7)) as u8;
    }
    let before = validate_checksums(&img).unwrap();
    assert!(!before.all_valid);
    let c = correct_checksums(&img).unwrap();
    assert_eq!(c.data.len(), EDC16_FLASH_SIZE);
    assert!(c.report.all_valid);
    assert_eq!(c.report.ecu_family, "EDC16C41");
    assert_eq!(c.report.fixed_count, 7);
    let after = validate_checksums(&c.data).unwrap();
    assert!(after.all_valid);
    assert_eq!(after.valid_count, 7);
    let slots = [0x1FFFCusize, 0x7FFFC, 0xBFFFC, 0xFFFFC, 0x13FFFC, 0x17FFFC, 0x1FFFFC];
    for i in 0..EDC16_FLASH_SIZE {
        if !slots.iter().any(|&s| s <= i && i < s + 4) {
            assert_eq!(c.data[i], img[i]);
        }
    }
    // A second pass finds nothing to fix.
    let again = correct_and_validate_checksums(&c.data).unwrap();
    assert_eq!(again.data, c.data);
    assert_eq!(again.report.fixed_count, 0);
}

#[test]
fn p01_block_count_names_the_length() {
    assert_eq!(p01_block_count(CAL_IMAGE_SIZE), Ok(2));
    assert_eq!(p01_block_count(P01_FULL_IMAGE_SIZE), Ok(8));
    assert_eq!(
        p01_block_count(1000),
        Err("Expected 131072 or 524288 bytes for P01, got 1000".to_string())
    );
}
