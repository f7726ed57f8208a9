use tuneitverse::consult::{consult_frame, consult_register_data, consult_register_value, CONSULT_BAUD, REG_BOOST};

#[test]
fn consult_frames_and_values() {
    assert_eq!(CONSULT_BAUD, 9600);
    assert_eq!(consult_frame(0x5A, &consult_register_data(REG_BOOST)), vec![0x5A, 0x01, 0x0B]);
    assert_eq!(consult_frame(0xD0, &[]), vec![0xD0]);
    assert_eq!(consult_register_value(&[0x12, 0x34, 0x56]), 0x1234);
    assert_eq!(consult_register_value(&[0x7F]), 0x7F);
    assert_eq!(consult_register_value(&[]), 0);
}
