use tuneitverse::uds::{
    build_clear_dtc, build_communication_control, build_control_dtc_setting, build_ecu_reset, build_read_did,
    build_read_dtc_by_status_mask, build_read_dtc_number_by_status_mask, build_read_memory,
    build_read_memory_legacy42, build_request_download, build_routine_control, build_security_request_seed,
    build_security_send_key, build_session_control, build_tester_present, build_transfer_data,
    build_transfer_exit, build_write_did, expect_positive, max_block_length, next_block_sequence, nrc_text,
    parse_response, strip_did_echo, transfer_chunk_len, transfer_plan, Alfi, DiagnosticSession, NegativeResponse,
    TransferBlock,
};

#[test]
fn alfi_lengths() {
    assert_eq!(Alfi(0x24).address_bytes(), 4);
    assert_eq!(Alfi(0x24).size_bytes(), 2);
    assert_eq!(Alfi(0x44).size_bytes(), 4);
    assert_eq!(Alfi(0x23).address_bytes(), 3);
}

#[test]
fn build_rmba_24() {
    let p = build_read_memory(Alfi(0x24), 0x0008_0000, 0x400).unwrap();
    assert_eq!(p[0], 0x24);
    assert_eq!(&p[1..5], &[0x00, 0x08, 0x00, 0x00]);
    assert_eq!(&p[5..7], &[0x04, 0x00]);
}

#[test]
fn build_rmba_legacy42() {
    let p = build_read_memory_legacy42(0x0008_0000, 0x400);
    assert_eq!(p[0], 0x42);
    assert_eq!(p.len(), 1 + 4 + 2);
}

#[test]
fn build_request_download_44() {
    let p = build_request_download(0x00, Alfi(0x44), 0x80000, 0x20000).unwrap();
    assert_eq!(p[0], 0x00);
    assert_eq!(p[1], 0x44);
    assert_eq!(p.len(), 2 + 4 + 4);
}

#[test]
fn parse_positive() {
    let r = parse_response(0x50, &[0x50, 0x03]).unwrap();
    assert_eq!(r, vec![0x03]);
}

#[test]
fn parse_nrc() {
    let e = parse_response(0x50, &[0x7F, 0x10, 0x22]).unwrap_err();
    assert_eq!(e.nrc, 0x22);
    assert!(e.description().contains("conditions"));
}

#[test]
fn transfer_data_seq() {
    let p = build_transfer_data(1, &[0xAA, 0xBB]);
    assert_eq!(p, vec![0x01, 0xAA, 0xBB]);
}

#[test]
fn session_enum() {
    assert_eq!(DiagnosticSession::Programming.as_u8(), 0x02);
    assert_eq!(DiagnosticSession::from_u8(0x03), Some(DiagnosticSession::Extended));
}

// ── further cases ─────────────────────────────────────────────────────────

#[test]
fn invalid_alfi_is_refused() {
    assert_eq!(build_read_memory(Alfi(0x05), 0, 0).unwrap_err(), "Invalid ALFI 0x05");
    assert_eq!(build_request_download(0, Alfi(0x50), 0, 0).unwrap_err(), "Invalid ALFI 0x50");
    assert_eq!(DiagnosticSession::from_u8(0x00), None);
    assert_eq!(DiagnosticSession::from_u8(0x05), None);
}

#[test]
fn parse_response_edge_cases() {
    assert_eq!(parse_response(0x50, &[]).unwrap_err(), NegativeResponse { sid: 0x10, nrc: 0x10 });
    assert_eq!(parse_response(0x50, &[0x7F]).unwrap_err(), NegativeResponse { sid: 0, nrc: 0x10 });
    assert_eq!(parse_response(0x50, &[0x01, 0x02]).unwrap(), vec![0x01, 0x02]);
}

#[test]
fn expect_positive_messages() {
    assert_eq!(expect_positive(0x10, &[0x50, 0x03]).unwrap(), vec![0x03]);
    assert_eq!(
        expect_positive(0x27, &[0x7F, 0x27, 0x35]).unwrap_err(),
        "UDS NRC 0x35 on SID 0x27: invalidKey"
    );
    assert_eq!(nrc_text(0x99), "unknownNRC");
    assert_eq!(nrc_text(0x78), "requestCorrectlyReceivedResponsePending");
}

#[test]
fn uds_builders_are_exact() {
    assert_eq!(build_session_control(DiagnosticSession::Extended), vec![0x03]);
    assert_eq!(build_tester_present(true), vec![0x80]);
    assert_eq!(build_tester_present(false), vec![0x00]);
    assert_eq!(build_ecu_reset(1), vec![1]);
    assert_eq!(build_communication_control(3, 1), vec![3, 1]);
    assert_eq!(build_control_dtc_setting(2), vec![2]);
    assert_eq!(build_read_did(0xF190), vec![0xF1, 0x90]);
    assert_eq!(build_write_did(0xF190, &[1, 2]), vec![0xF1, 0x90, 1, 2]);
    assert_eq!(build_read_memory_legacy42(0x0008_0000, 0x400), vec![0x42, 0, 8, 0, 0, 4, 0]);
    assert_eq!(build_security_request_seed(1), vec![1]);
    assert_eq!(build_security_send_key(0xFF, &[9]), vec![0x00, 9]);
    assert_eq!(build_routine_control(1, 0xFF00, &[7]), vec![1, 0xFF, 0x00, 7]);
    assert_eq!(build_transfer_exit(&[5, 6]), vec![5, 6]);
    assert_eq!(build_clear_dtc(0xFFFFFF), vec![0xFF, 0xFF, 0xFF]);
    assert_eq!(build_clear_dtc(0x01_123456), vec![0x12, 0x34, 0x56]);
    assert_eq!(build_read_dtc_by_status_mask(0x08), vec![0x02, 0x08]);
    assert_eq!(build_read_dtc_number_by_status_mask(0x08), vec![0x01, 0x08]);
    assert_eq!(build_read_memory(Alfi(0x23), 0x0012_3456, 0x10).unwrap(), vec![0x23, 0x12, 0x34, 0x56, 0x00, 0x10]);
}

#[test]
fn download_decisions() {
    assert_eq!(max_block_length(&[]), 0x402);
    assert_eq!(max_block_length(&[0x20, 0x04, 0x02]), 0x402);
    assert_eq!(max_block_length(&[0x20, 0x08, 0x02]), 0x802);
    assert_eq!(max_block_length(&[0x10, 0x01]), 2);
    assert_eq!(max_block_length(&[0x30, 0x01]), 0x402);
    assert_eq!(transfer_chunk_len(0x402), 0x401);
    assert_eq!(transfer_chunk_len(0), 1);
    assert_eq!(transfer_chunk_len(0x10000), 0x800);
    assert_eq!(next_block_sequence(0xFF), 1);
    assert_eq!(next_block_sequence(0x01), 2);
    assert_eq!(strip_did_echo(&[0xF1, 0x90, 0x41]), vec![0x41]);
    assert_eq!(strip_did_echo(&[0xF1]), vec![0xF1]);
}

#[test]
fn transfer_plan_covers_image() {
    let p = transfer_plan(10, 4);
    assert_eq!(
        p,
        vec![
            TransferBlock { start: 0, end: 4, sequence: 1 },
            TransferBlock { start: 4, end: 8, sequence: 2 },
            TransferBlock { start: 8, end: 10, sequence: 3 },
        ]
    );
    assert!(transfer_plan(0, 4).is_empty());
    let big = transfer_plan(300, 1);
    assert_eq!(big.len(), 300);
    assert_eq!(big[254].sequence, 0xFF);
    assert_eq!(big[255].sequence, 1);
    assert_eq!(big[299].end, 300);
}
