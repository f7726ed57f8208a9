use tuneitverse::dtc::describe_dtc;
use tuneitverse::kwp::{build_kwp_request, classify_kwp_response, kwp_send_key_data, KwpRx};
use tuneitverse::transport::{is_elm_ascii, is_raw_vpw, mode01_payload, parse_elm_hex};

#[test]
fn elm_hex_strips_spaces_and_prompt() {
    let b = parse_elm_hex("41 0C 1A F8\r>");
    assert_eq!(b, vec![0x41, 0x0C, 0x1A, 0xF8]);
}

#[test]
fn protocol_classifiers() {
    assert!(is_elm_ascii("can"));
    assert!(is_elm_ascii("uds"));
    assert!(is_elm_ascii("elm-auto (Mode 01 seen)"));
    assert!(is_raw_vpw("vpw"));
    assert!(!is_raw_vpw("can"));
}

// ── further cases ─────────────────────────────────────────────────────────

#[test]
fn more_classifier_cases() {
    assert!(is_elm_ascii(""));
    assert!(is_elm_ascii("KWP2000"));
    assert!(!is_elm_ascii("vpw"));
    assert!(is_raw_vpw("J1850 VPW"));
    assert_eq!(parse_elm_hex("4"), Vec::<u8>::new());
    assert_eq!(parse_elm_hex("SEARCHING...\r41 05 7B\r\r>"), vec![0xEA, 0xC4, 0x10, 0x57]);
}

#[test]
fn mode01_from_elm_bytes() {
    assert_eq!(mode01_payload(&[0x7E, 0x8, 0x41, 0x0C, 0x1A, 0xF8], 0x0C), Some(vec![0x1A, 0xF8]));
    assert_eq!(mode01_payload(&[0x41, 0x0D], 0x0C), None);
    let mut f = vec![0x48, 0x6B, 0x10, 0x41, 0x0C, 0x1A, 0xF8];
    let cs = f.iter().fold(0u8, |a, &b| a.wrapping_add(b));
    f.push(cs);
    assert_eq!(mode01_payload(&f, 0x0C), Some(vec![0x1A, 0xF8]));
}

#[test]
fn kwp_frames_and_replies() {
    let f = build_kwp_request(0x33, 0xF1, &[0x10, 0x85]).unwrap();
    assert_eq!(f, vec![0x80, 0x33, 0xF1, 0x02, 0x10, 0x85, 0x80u8.wrapping_add(0x33).wrapping_add(0xF1).wrapping_add(0x02).wrapping_add(0x10).wrapping_add(0x85)]);
    assert_eq!(build_kwp_request(0, 0, &[0u8; 256]).unwrap_err(), "KWP data too long (max 255 bytes)");
    assert_eq!(classify_kwp_response(&[0x80, 0xF1, 0x33, 0x02, 0x50]), KwpRx::Incomplete);
    assert_eq!(classify_kwp_response(&[0x80, 0xF1, 0x33, 0x03, 0x7F, 0x78, 0x10, 0x00]), KwpRx::Pending);
    assert_eq!(classify_kwp_response(&[0x80, 0xF1, 0x33, 0x01, 0x50, 0x00]), KwpRx::Complete);
    assert_eq!(classify_kwp_response(&[0x50]), KwpRx::Complete);
    assert_eq!(kwp_send_key_data(1, &[0xAA]), vec![0x27, 0x02, 0xAA]);
}

#[test]
fn dtc_descriptions() {
    assert_eq!(describe_dtc("C0035"), "Left Front Wheel Speed Sensor Circuit");
    assert_eq!(describe_dtc("U0100"), "Lost Communication With ECM/PCM A");
    assert_eq!(describe_dtc("B1234"), "B code - see service information");
    assert_eq!(describe_dtc("P0300"), "No description available");
    assert_eq!(describe_dtc(""), "No description available");
}
