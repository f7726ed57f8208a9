use tuneitverse::vpw::{
    build_clear_dtc_request, build_dtc_request, build_mode20_exit_kernel, build_mode22_request, build_mode34_request,
    build_mode36_chunk, build_mode37_request, build_mode3c_read_block, build_mode3f_test_device,
    build_mode_a0_hs_prepare, build_mode_a1_hs_enter, build_obd_request, build_physical_frame,
    build_physical_request, is_positive_hs_response, parse_dtc_response, parse_hs_response,
    parse_mode01_response, parse_mode22_response, parse_mode3c_response, validate_frame, vpw_checksum,
    HsResponse, MODE_EXIT_KERNEL, MODE_HS_ENTER, MODE_HS_PREPARE, MODE_READ_BLOCK, RESP_HS_ENTER,
    RESP_HS_PREPARE,
};

#[test]
fn mode3c_frame_structure() {
    let f = build_mode3c_read_block(0x00020000, 0x0100);
    assert_eq!(f[3], MODE_READ_BLOCK);
    assert_eq!(f[4], 0x02);
    assert_eq!(f[5], 0x00);
    assert_eq!(f[6], 0x00);
    assert_eq!(f[7], 0x01);
    assert_eq!(f[8], 0x00);
    assert!(validate_frame(&f));
}

#[test]
fn mode3c_response_parse() {
    let mut frame = vec![0x8C, 0xF0, 0x10, 0x7C, 0xAA, 0xBB, 0xCC, 0xDD];
    let cs = vpw_checksum(&frame);
    frame.push(cs);
    let data = parse_mode3c_response(&frame).unwrap();
    assert_eq!(data, vec![0xAA, 0xBB, 0xCC, 0xDD]);
}

#[test]
fn exit_kernel_frame() {
    let f = build_mode20_exit_kernel();
    assert_eq!(f[3], MODE_EXIT_KERNEL);
    assert!(validate_frame(&f));
}

#[test]
fn hs_prepare_enter_frames() {
    let a0 = build_mode_a0_hs_prepare();
    assert_eq!(a0[3], MODE_HS_PREPARE);
    assert!(validate_frame(&a0));
    let a1 = build_mode_a1_hs_enter();
    assert_eq!(a1[3], MODE_HS_ENTER);
    assert!(validate_frame(&a1));
}

#[test]
fn hs_response_parse() {
    let prep = vec![0x8C, 0xF0, 0x10, RESP_HS_PREPARE, 0x00];
    assert_eq!(parse_hs_response(&prep), HsResponse::PrepareOk);
    let enter = vec![0x8C, 0xF0, 0x10, RESP_HS_ENTER];
    assert_eq!(parse_hs_response(&enter), HsResponse::EnterOk);
    let neg = vec![0x8C, 0xF0, 0x10, 0x7F, 0xA0, 0x11];
    assert_eq!(parse_hs_response(&neg), HsResponse::Negative);
}

// ── further cases ─────────────────────────────────────────────────────────

#[test]
fn every_builder_validates() {
    for f in [
        build_obd_request(0x0C),
        build_physical_request(0x0D),
        build_mode22_request(0x11, 0x02),
        build_dtc_request(),
        build_clear_dtc_request(),
        build_mode3f_test_device(),
        build_mode34_request(0x0001_0000, 0x0008_0000),
        build_mode36_chunk(&[1, 2, 3]),
        build_mode37_request(),
        build_physical_frame(&[0x3B, 0x01]),
    ] {
        assert!(validate_frame(&f));
    }
}

#[test]
fn vpw_builders_are_exact() {
    assert_eq!(build_obd_request(0x0C), vec![0x68, 0x6A, 0xF0, 0x01, 0x0C, 0xCF]);
    assert_eq!(build_mode34_request(0x01020304, 0x0A0B0C0D)[..13], [0x8C, 0x10, 0xF0, 0x34, 0x00, 1, 2, 3, 4, 0x0A, 0x0B, 0x0C, 0x0D]);
    assert_eq!(build_physical_frame(&[0x3B]), vec![0x8C, 0x10, 0xF0, 0x3B, (0x8Cu32 + 0x10 + 0xF0 + 0x3B) as u8]);
    assert_eq!(vpw_checksum(&[0xFF, 0x02]), 0x01);
    assert!(!validate_frame(&[0x01]));
    assert!(!validate_frame(&[0x01, 0x02]));
    assert!(validate_frame(&[0x01, 0x01]));
}

#[test]
fn mode01_and_mode22_parsers() {
    let mut f = vec![0x48, 0x6B, 0x10, 0x41, 0x0C, 0x1A, 0xF8];
    f.push(vpw_checksum(&f));
    assert_eq!(parse_mode01_response(&f, 0x0C), Some(vec![0x1A, 0xF8]));
    assert_eq!(parse_mode01_response(&f, 0x0D), None);
    let mut g = vec![0x48, 0x6B, 0x10, 0x62, 0x11, 0x02, 0x7F];
    g.push(vpw_checksum(&g));
    assert_eq!(parse_mode22_response(&g, 0x11, 0x02), Some(vec![0x7F]));
    g[6] = 0x00;
    assert_eq!(parse_mode22_response(&g, 0x11, 0x02), None);
}

#[test]
fn dtc_parser_pairs_codes() {
    let mut f = vec![0x48, 0x6B, 0x10, 0x43, 0x02, 0x01, 0x71, 0x03, 0x00, 0x09];
    f.push(vpw_checksum(&f));
    assert_eq!(parse_dtc_response(&f), Some(vec![[0x01, 0x71], [0x03, 0x00]]));
    assert_eq!(parse_dtc_response(&[0x48, 0x6B, 0x10, 0x44, 0x00]), None);
}

#[test]
fn mode3c_errors() {
    assert_eq!(parse_mode3c_response(&[1, 2]).unwrap_err(), "Mode 3C response too short: 2 bytes");
    assert_eq!(parse_mode3c_response(&[1, 2, 3, 4, 5]).unwrap_err(), "Not a Mode 3C response (SID=0x04)");
    assert_eq!(
        parse_mode3c_response(&[0x8C, 0xF0, 0x10, 0x7F, 0x3C, 0x31]).unwrap_err(),
        "Mode 3C negative response NRC 0x31"
    );
    assert_eq!(parse_mode3c_response(&[0x7C, 1, 2, 3, 4]).unwrap(), vec![1, 2, 3, 4]);
    assert!(is_positive_hs_response(&[RESP_HS_ENTER], RESP_HS_ENTER));
    assert!(!is_positive_hs_response(&[], RESP_HS_ENTER));
    assert_eq!(parse_hs_response(&[]), HsResponse::Unknown);
    assert_eq!(parse_hs_response(&[0x01]), HsResponse::Unknown);
}
