use tuneitverse::cs_guard::{honda_blocks_p01_corrector, looks_like_gm_p01, looks_like_honda};

#[test]
fn honda_string_detected() {
    let mut img = vec![0u8; 64];
    img[10..18].copy_from_slice(b"37820-PR");
    assert!(looks_like_honda(&img));
    assert!(!looks_like_gm_p01(&img));
}

// ── further cases ─────────────────────────────────────────────────────────

#[test]
fn honda_guard_needs_p01_size() {
    let mut img = vec![0u8; 524288];
    img[100..108].copy_from_slice(b"37820-PR");
    assert!(honda_blocks_p01_corrector(&img));
    let small = vec![0u8; 64];
    assert!(!honda_blocks_p01_corrector(&small));
}
