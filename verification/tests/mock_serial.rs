use tuneitverse::mock_serial::{synthesize_uds_positive, MockSerialPort};
use tuneitverse::uds::{expect_positive, parse_response};

fn read_all(p: &mut MockSerialPort, max: usize) -> String {
    let b = p.read_bytes(max).expect("queued bytes");
    String::from_utf8_lossy(&b).to_string()
}

#[test]
fn auto_ok_for_at_commands() {
    let mut p = MockSerialPort::new();
    p.write_bytes(b"AT Z\r");
    let s = read_all(&mut p, 16);
    assert!(s.contains("OK"));
}

#[test]
fn auto_session_control_positive() {
    let mut p = MockSerialPort::new();
    p.write_bytes(b"021003\r");
    let s = read_all(&mut p, 32);
    assert!(s.contains("025003") || s.contains("50"));
}

#[test]
fn scripted_response_overrides_auto() {
    let mut p = MockSerialPort::new();
    p.push_response(b"7F1022\r>");
    p.write_bytes(b"021003\r");
    let s = read_all(&mut p, 32);
    assert!(s.contains("7F1022"));
}

#[test]
fn written_captured() {
    let mut p = MockSerialPort::new();
    p.write_bytes(b"HELLO\r");
    assert!(p.written_as_str().contains("HELLO"));
}

// ── further cases ─────────────────────────────────────────────────────────

#[test]
fn mock_exact_replies() {
    let mut p = MockSerialPort::new();
    p.write_bytes(b"021003\r");
    assert_eq!(read_all(&mut p, 64), "025003\r>");
    p.write_bytes(b"100A2E\r");
    assert_eq!(read_all(&mut p, 64), "300000\r>");
    p.write_bytes(b"300000\r");
    assert!(p.read_bytes(8).is_none());
    p.write_bytes(b"Z\r");
    assert_eq!(read_all(&mut p, 64), "?\r>");
    p.write_bytes(b"  \r");
    assert!(p.read_bytes(8).is_none());
    p.push_ok();
    p.write_bytes(b"0100\r");
    assert_eq!(read_all(&mut p, 64), "OK\r>");
    p.push_elm_hex(&[0x62, 0xF1]);
    p.write_bytes(b"0322F190\r");
    assert_eq!(read_all(&mut p, 3), "62F");
    assert_eq!(read_all(&mut p, 64), "1\r>");
    assert_eq!(p.bytes_to_read(), 0);
}

#[test]
fn mock_without_auto_answers() {
    let mut p = MockSerialPort::new().with_auto_elm(false);
    p.write_bytes(b"AT Z\r0210");
    assert!(p.read_bytes(8).is_none());
    assert_eq!(p.written_as_str(), "AT Z\r0210");
    p.clear_written();
    assert_eq!(p.written_as_str(), "");
    assert_eq!(p.name(), "MOCK");
    p.set_baud_rate(115_200);
    assert_eq!(p.baud_rate(), 115_200);
}

#[test]
fn synthesized_responses() {
    assert_eq!(synthesize_uds_positive(&[]), vec![0x7F, 0x00, 0x10]);
    assert_eq!(synthesize_uds_positive(&[0x3E, 0x80]), vec![0x7E, 0x00]);
    assert_eq!(synthesize_uds_positive(&[0x3E, 0x01]), vec![0x7E, 0x01]);
    assert_eq!(synthesize_uds_positive(&[0x27, 0x01]), vec![0x67, 0x01, 0x12, 0x34, 0x56, 0x78]);
    assert_eq!(synthesize_uds_positive(&[0x27, 0x02]), vec![0x67, 0x02]);
    assert_eq!(synthesize_uds_positive(&[0x22, 0xF1]), vec![0x62, 0xF1, 0x00, 0xDE, 0xAD]);
    assert_eq!(synthesize_uds_positive(&[0x34]), vec![0x74, 0x20, 0x04, 0x02]);
    assert_eq!(synthesize_uds_positive(&[0x99]), vec![0x7F, 0x99, 0x11]);
}

#[test]
fn mock_services_answer_positively() {
    for sid in [0x10u8, 0x11, 0x14, 0x19, 0x22, 0x23, 0x27, 0x28, 0x31, 0x34, 0x36, 0x37, 0x3E, 0x85] {
        let req = vec![sid, 0x01, 0x02, 0x03];
        assert!(expect_positive(sid, &synthesize_uds_positive(&req)).is_ok(), "sid {:02X}", sid);
    }
    let n = parse_response(0x2E + 0x40, &synthesize_uds_positive(&[0x2E, 0xF1, 0x90])).unwrap_err();
    assert_eq!((n.sid, n.nrc), (0x2E, 0x11));
}

#[test]
fn answers_leave_written_record() {
    let mut p = MockSerialPort::new();
    p.push_response(b"SCRIPTED\r>");
    p.write_bytes(b"AT Z\r0210 03\rpartial");
    assert_eq!(p.written_as_str(), "AT Z\r0210 03\rpartial");
    assert_eq!(p.baud_rate(), 500_000);
}
