use tuneitverse::cs_guard::scan_checksum_candidates;

#[test]
fn tiny_scan_empty() {
    let v = scan_checksum_candidates(&[1, 2, 3]);
    assert_eq!(v.candidates.len(), 0);
}

#[test]
fn zero_sum_windows() {
    let img = vec![0u8; 0x20000];
    let v = scan_checksum_candidates(&img);
    assert_eq!(v.window, 0x10000);
    assert_eq!(v.candidates.len(), 2);
    assert_eq!(v.candidates[0].start, "0x000000");
    assert_eq!(v.candidates[0].end, "0x00FFFF");
    assert_eq!(v.candidates[1].start, "0x010000");
    let mut img2 = vec![0u8; 16];
    img2[0] = 1;
    let v = scan_checksum_candidates(&img2);
    assert_eq!(v.window, 16);
    assert!(v.candidates.is_empty());
    let img3 = vec![0x00, 0x01, 0xFF, 0xFF];
    assert_eq!(scan_checksum_candidates(&img3).candidates.len(), 1);
}
