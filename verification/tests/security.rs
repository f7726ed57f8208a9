use tuneitverse::security::{
    bosch_compute_key_for_seed, bosch_key_from_seed, bosch_key_result, bosch_parse_seed_from_response,
    bosch_uds_request_seed, bosch_uds_send_key, build_key_send_l1, build_key_send_l2, build_seed_request_l1,
    build_seed_request_l2, edc16c41_calculate_key, edc16c41_key_from_seed_bytes,
    edc16c41_key_from_seed_bytes_unchecked, p01_key_l1, p01_key_l2, parse_key_response, parse_seed_response,
    BoschSecurityLevel, SecurityState, bosch_seed_bytes, bosch_unlock_after_seed, bosch_unlock_after_key,
    BoschUnlockStep,
};

fn validate_checksum_test(frame: &[u8]) -> bool {
    if frame.len() < 2 {
        return false;
    }
    let expected = frame[..frame.len() - 1].iter().fold(0u8, |a, &b| a.wrapping_add(b));
    expected == frame[frame.len() - 1]
}

fn with_checksum(mut frame: Vec<u8>) -> Vec<u8> {
    let cs = frame.iter().fold(0u8, |a, &b| a.wrapping_add(b));
    frame.push(cs);
    frame
}

#[test]
fn level1_known_seed_0x1234() {
    let (kh, kl) = p01_key_l1(0x12, 0x34);
    let key = u16::from_be_bytes([kh, kl]);
    assert_ne!(key, 0x0000);
    assert_ne!(key, 0x1234);
}

#[test]
fn level1_zero_seed_returns_zero_key() {
    assert_eq!(p01_key_l1(0x00, 0x00), (0x00, 0x00));
}

#[test]
fn level2_zero_seed_returns_zero_key() {
    assert_eq!(p01_key_l2(0x00, 0x00), (0x00, 0x00));
}

#[test]
fn level1_and_level2_produce_different_keys_for_same_seed() {
    let k1 = p01_key_l1(0xAB, 0xCD);
    let k2 = p01_key_l2(0xAB, 0xCD);
    assert_ne!(k1, k2);
}

#[test]
fn seed_response_parse_valid() {
    let frame = with_checksum(vec![0x48u8, 0x6B, 0x10, 0x67, 0x01, 0xAB, 0xCD]);
    assert_eq!(parse_seed_response(&frame, 0x01), Ok((0xAB, 0xCD)));
}

#[test]
fn seed_response_bad_checksum() {
    let frame = vec![0x48, 0x6B, 0x10, 0x67, 0x01, 0xAB, 0xCD, 0xFF];
    assert!(parse_seed_response(&frame, 0x01).is_err());
}

#[test]
fn key_response_negative_nrc35() {
    let frame = with_checksum(vec![0x48u8, 0x6B, 0x10, 0x7F, 0x27, 0x35]);
    let err = parse_key_response(&frame, 0x02).unwrap_err();
    assert!(err.contains("invalid key"), "got: {}", err);
}

#[test]
fn seed_request_l1_frame_checksum() {
    assert!(validate_checksum_test(&build_seed_request_l1()));
}

#[test]
fn key_send_l1_frame_checksum() {
    assert!(validate_checksum_test(&build_key_send_l1(0x12, 0x34)));
}

#[test]
fn bosch_key_deterministic() {
    let seed = [0x12, 0x34, 0x56, 0x78];
    let k1 = bosch_key_from_seed(&seed, "EDC16C41");
    let k2 = bosch_key_from_seed(&seed, "EDC16C41");
    assert_eq!(k1, k2);
    assert_eq!(k1.len(), 4);
}

#[test]
fn bosch_parse_seed() {
    let resp = vec![0x67, 0x01, 0xAB, 0xCD];
    assert_eq!(bosch_parse_seed_from_response(&resp).unwrap(), vec![0xAB, 0xCD]);
}

#[test]
fn bosch_level_from_str() {
    assert_eq!(BoschSecurityLevel::from_str("programming"), BoschSecurityLevel::Programming);
    assert_eq!(BoschSecurityLevel::from_str("diag"), BoschSecurityLevel::Diagnostic);
    assert_eq!(BoschSecurityLevel::Programming.key_subfn(), 0x04);
    assert_eq!(BoschSecurityLevel::Diagnostic.seed_subfn(), 0x01);
}

#[test]
fn edc16c41_zero_seed() {
    assert_eq!(edc16c41_calculate_key(0x0000_0000), 0x8D12_CE4D);
}

#[test]
fn edc16c41_known_seed_0x12345678() {
    assert_eq!(edc16c41_calculate_key(0x1234_5678), 0x8FC9_5596);
}

#[test]
fn edc16c41_known_seed_0xABCDEF01() {
    assert_eq!(edc16c41_calculate_key(0xABCD_EF01), 0x5832_9A54);
}

#[test]
fn edc16c41_known_seed_0xDEADBEEF() {
    assert_eq!(edc16c41_calculate_key(0xDEAD_BEEF), 0x663E_90F8);
}

#[test]
fn edc16c41_const_eval() {
    let key: u32 = edc16c41_calculate_key(0x1234_5678);
    assert_eq!(key, 0x8FC9_5596);
}

#[test]
fn edc16c41_bytes_path_matches_u32() {
    let seed = [0x12u8, 0x34, 0x56, 0x78];
    let key = edc16c41_key_from_seed_bytes(&seed).unwrap();
    assert_eq!(key, edc16c41_calculate_key(0x1234_5678).to_be_bytes());
}

#[test]
fn edc16c41_short_seed_returns_none() {
    assert!(edc16c41_key_from_seed_bytes(&[0x12, 0x34]).is_none());
    assert!(edc16c41_key_from_seed_bytes(&[]).is_none());
}

#[test]
fn bosch_key_from_seed_uses_edc16c41_for_4byte() {
    let seed = [0xDE, 0xAD, 0xBE, 0xEF];
    let key = bosch_key_from_seed(&seed, "EDC16C41");
    assert_eq!(key, edc16c41_calculate_key(0xDEAD_BEEF).to_be_bytes().to_vec());
}

#[test]
fn bosch_key_from_seed_edc16_family_also_uses_real_algo() {
    let seed = [0x00, 0x00, 0x00, 0x01];
    let key = bosch_key_from_seed(&seed, "EDC16");
    assert_eq!(key, edc16c41_calculate_key(0x0000_0001).to_be_bytes().to_vec());
}

#[test]
fn bosch_key_from_seed_prefers_c41_even_when_generic_edc16_present() {
    let seed = [0x11, 0x22, 0x33, 0x44];
    let key = bosch_key_from_seed(&seed, "Bosch EDC16C41 Nissan");
    assert_eq!(key.len(), 4);
    assert_eq!(key, edc16c41_key_from_seed_bytes(&seed).unwrap().to_vec());
}

#[test]
fn edc17_starter_is_unverified_and_not_sent() {
    let seed = [0x12, 0x34];
    let r = bosch_key_result(&seed, "EDC17_COMMON");
    assert!(!r.verified);
    assert!(r.note.contains("not a measured key"));
    assert!(bosch_key_from_seed(&seed, "EDC17_COMMON").is_empty());
}

#[test]
fn med17_starter_is_unverified() {
    let seed = [0xAA, 0xBB, 0xCC, 0xDD];
    let r = bosch_key_result(&seed, "MED17_COMMON");
    assert!(!r.verified);
    assert!(bosch_key_from_seed(&seed, "MED17").is_empty());
}

// ── further cases ─────────────────────────────────────────────────────────

#[test]
fn p01_level2_zero_seed_law_and_nonzero_differs() {
    assert_eq!(p01_key_l2(0, 0), (0, 0));
    assert_ne!(p01_key_l2(0x12, 0x34), (0, 0));
}

#[test]
fn p01_key_exact_values() {
    // seed 0x0001, level 1: 1 + 3 = 4 shifts of 0x0001 give 0x0010.
    assert_eq!(p01_key_l1(0x00, 0x01), (0x00, 0x10));
    // level 2: 6 shifts give 0x0040, xored with 0x36A9.
    assert_eq!(p01_key_l2(0x00, 0x01), (0x36, 0xE9));
}

#[test]
fn m27_frames_are_exact() {
    assert_eq!(build_seed_request_l1(), vec![0x68, 0x6A, 0xF1, 0x27, 0x01, 0xEB]);
    assert_eq!(build_seed_request_l2(), vec![0x68, 0x6A, 0xF1, 0x27, 0x03, 0xED]);
    let k = build_key_send_l2(0x12, 0x34);
    assert_eq!(&k[..7], &[0x68, 0x6A, 0xF1, 0x27, 0x04, 0x12, 0x34]);
    assert!(validate_checksum_test(&k));
}

#[test]
fn seed_response_errors_name_their_cause() {
    assert_eq!(parse_seed_response(&[1, 2, 3], 1).unwrap_err(), "Seed response too short: 3 bytes (need \u{2265} 8)");
    let neg = with_checksum(vec![0x48, 0x6B, 0x10, 0x7F, 0x27, 0x22, 0x00]);
    assert_eq!(
        parse_seed_response(&neg, 1).unwrap_err(),
        "Negative response 0x7F NRC=0x22 \u{2014} conditions not correct (engine may be running)"
    );
    let other = with_checksum(vec![0x48, 0x6B, 0x10, 0x55, 0x01, 0x00, 0x00]);
    assert_eq!(parse_seed_response(&other, 1).unwrap_err(), "Unexpected service ID 0x55");
    let sub = with_checksum(vec![0x48, 0x6B, 0x10, 0x67, 0x03, 0x00, 0x00]);
    assert_eq!(parse_seed_response(&sub, 1).unwrap_err(), "Sub-fn mismatch: got 0x03 expected 0x01");
}

#[test]
fn key_response_cases() {
    let ok = with_checksum(vec![0x48, 0x6B, 0x10, 0x67, 0x02]);
    assert_eq!(parse_key_response(&ok, 0x02), Ok(()));
    assert_eq!(parse_key_response(&[1, 2], 0x02).unwrap_err(), "Key response too short: 2 bytes");
    let bad = vec![0x48, 0x6B, 0x10, 0x67, 0x02, 0x00];
    assert_eq!(parse_key_response(&bad, 0x02).unwrap_err(), "Key response checksum mismatch");
    let sid = with_checksum(vec![0x48, 0x6B, 0x10, 0x50, 0x02]);
    assert_eq!(parse_key_response(&sid, 0x02).unwrap_err(), "Unexpected SID 0x50 in key response");
    assert_eq!(
        parse_key_response(&ok, 0x04).unwrap_err(),
        "Key response sub-fn mismatch: got 0x02"
    );
}

#[test]
fn security_state_default_is_locked() {
    let s = SecurityState::default();
    assert!(s.locked);
    assert!(s.level.is_none());
    assert_eq!((s.seed_hi, s.seed_lo), (0, 0));
}

#[test]
fn bosch_level_names_and_payloads() {
    assert_eq!(BoschSecurityLevel::from_str("FLASH"), BoschSecurityLevel::Programming);
    assert_eq!(BoschSecurityLevel::from_str("0x05"), BoschSecurityLevel::Extended);
    assert_eq!(BoschSecurityLevel::from_str("Extended"), BoschSecurityLevel::Extended);
    assert_eq!(BoschSecurityLevel::from_str("prog "), BoschSecurityLevel::Diagnostic);
    assert_eq!(bosch_uds_request_seed(BoschSecurityLevel::Extended), vec![0x27, 0x05]);
    assert_eq!(bosch_uds_send_key(BoschSecurityLevel::Programming, &[0xAA, 0xBB]), vec![0x27, 0x04, 0xAA, 0xBB]);
}

#[test]
fn bosch_starters_and_passthrough() {
    let r = bosch_key_result(&[], "EDC16");
    assert_eq!(r.algo, "empty");
    assert!(r.key.is_empty());
    let r = bosch_key_result(&[0x10, 0x20], "edc16");
    assert_eq!(r.algo, "edc16_2byte_starter");
    let k0 = 0x10u8.wrapping_add(0x5A).rotate_left(3) ^ 0xA5;
    let k1 = 0x20u8.wrapping_add(0x3C).rotate_right(2) ^ 0x5A;
    assert_eq!(r.key, vec![k0, k1]);
    let r = bosch_key_result(&[0x10, 0x20], "ME7");
    assert_eq!(r.algo, "generic_starter");
    assert_eq!(r.key, vec![0x10 ^ 0xFF, 0x21 ^ 0xAA]);
    let r = bosch_key_result(&[0x10], "ME7");
    assert_eq!(r.algo, "passthrough");
    assert_eq!(r.key, vec![0x10]);
    assert!(bosch_compute_key_for_seed(&[0x10, 0x20], "ME7").is_empty());
    let k = edc16c41_key_from_seed_bytes_unchecked(&[0xDE, 0xAD, 0xBE, 0xEF, 0x00]);
    assert_eq!(k, edc16c41_calculate_key(0xDEAD_BEEF).to_be_bytes());
}

#[test]
fn bosch_parse_seed_errors() {
    assert_eq!(bosch_parse_seed_from_response(&[0x7F, 0x27, 0x35]).unwrap_err(), "Negative response NRC 0x35");
    assert_eq!(bosch_parse_seed_from_response(&[0x7F]).unwrap_err(), "Negative response NRC 0x00");
    assert_eq!(
        bosch_parse_seed_from_response(&[0x50, 0x01, 0x02]).unwrap_err(),
        "Not a positive SecurityAccess seed response"
    );
}

#[test]
fn bosch_unlock_steps() {
    assert_eq!(bosch_seed_bytes(&[0x67, 0x03, 0xAA, 0xBB]).unwrap(), vec![0xAA, 0xBB]);
    assert_eq!(bosch_seed_bytes(&[0x12, 0x34]).unwrap(), vec![0x12, 0x34]);
    assert_eq!(bosch_seed_bytes(&[0x0A]).unwrap_err(), "Unexpected seed response: [0A]");
    assert_eq!(bosch_seed_bytes(&[]).unwrap_err(), "Unexpected seed response: []");
    match bosch_unlock_after_seed(&[0, 0, 0, 0], "EDC16C41", BoschSecurityLevel::Programming) {
        BoschUnlockStep::Unlocked(m) => assert_eq!(
            m,
            r#"{"success":true,"level":"Programming","message":"Already unlocked or zero-seed (no key required)","family":"EDC16C41"}"#
        ),
        _ => panic!("zero seed must read as unlocked"),
    }
    let seed = [0x12, 0x34, 0x56, 0x78];
    match bosch_unlock_after_seed(&seed, "EDC16C41", BoschSecurityLevel::Programming) {
        BoschUnlockStep::SendKey(k) => assert_eq!(k, edc16c41_key_from_seed_bytes(&seed).unwrap().to_vec()),
        _ => panic!("measured algorithm must give a key"),
    }
    match bosch_unlock_after_seed(&[0x12, 0x34], "MED17", BoschSecurityLevel::Programming) {
        BoschUnlockStep::Refused(m) => assert!(m.starts_with("Refusing Bosch UDS unlock for MED17: ") && m.ends_with("(algo=med17_starter)")),
        _ => panic!("unmeasured algorithm must refuse"),
    }
    assert_eq!(
        bosch_unlock_after_key(&[0x67, 0x04], "EDC16C41", BoschSecurityLevel::Programming, 4, 4).unwrap(),
        r#"{"success":true,"level":"Programming","message":"Bosch UDS SecurityAccess unlocked successfully","family":"EDC16C41","seed_len":4,"key_len":4}"#
    );
    assert_eq!(
        bosch_unlock_after_key(&[0x7F, 0x27, 0x35], "EDC16C41", BoschSecurityLevel::Programming, 4, 4).unwrap_err(),
        "Key rejected NRC 0x35 — check family hint or seed length"
    );
    assert!(bosch_unlock_after_key(&[], "EDC16C41", BoschSecurityLevel::Diagnostic, 4, 4).is_ok());
}
