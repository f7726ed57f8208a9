use tuneitverse::can::{
    assemble_multiframe, build_flow_control, build_flow_control_params, build_single_frame, elm_hex_to_bytes,
    fc_retry_error, fc_retry_needed, j2534_available, j2534_list_devices, lawicel_frame_text, parse_lawicel_frame,
    parse_isotp_segment, plan_multiframe_tx, CanFrame, FcFlag, FlowControlFrame, FlowControlParams,
    IsoTpSegment, MultiframeAssembler, tx_cf_allowed, tx_fc_decision, tx_gap_ms, TxFcDecision,
};

#[test]
fn fc_flag_roundtrip() {
    assert_eq!(FcFlag::from_nibble(0x00), Some(FcFlag::Cts));
    assert_eq!(FcFlag::from_nibble(0x01), Some(FcFlag::Wait));
    assert_eq!(FcFlag::from_nibble(0x02), Some(FcFlag::Overflow));
    assert_eq!(FcFlag::from_nibble(0x03), None);
}

#[test]
fn flow_control_frame_encode_parse() {
    let f = FlowControlFrame::cts(FlowControlParams::gentle());
    let enc = f.encode();
    assert_eq!(enc[0], 0x30);
    assert_eq!(enc[1], 16);
    assert_eq!(enc[2], 2);
    let parsed = FlowControlFrame::try_parse(&enc).unwrap();
    assert_eq!(parsed.flag, FcFlag::Cts);
    assert_eq!(parsed.block_size, 16);
}

#[test]
fn interpret_ovflw_aborts() {
    let f = FlowControlFrame { flag: FcFlag::Overflow, block_size: 0, st_min: 0 };
    assert!(f.interpret_for_sender().unwrap_err().contains("OVFLW"));
}

#[test]
fn assembler_completes() {
    let mut a = MultiframeAssembler::from_first(10, vec![0x63, 1, 2, 3, 4, 5]);
    assert!(!a.is_complete());
    a.push_cf(1, &[6, 7, 8, 9]).unwrap();
    assert!(a.is_complete());
    assert_eq!(a.finish().unwrap(), vec![0x63, 1, 2, 3, 4, 5, 6, 7, 8, 9]);
}

#[test]
fn assembler_incomplete_errors() {
    let a = MultiframeAssembler::from_first(20, vec![1, 2, 3]);
    assert!(a.finish().unwrap_err().contains("incomplete"));
}

#[test]
fn parse_segments() {
    match parse_isotp_segment(&[0x03, 0x62, 0xF1, 0x90]) {
        IsoTpSegment::Single(p) => assert_eq!(p, vec![0x62, 0xF1, 0x90]),
        o => panic!("{:?}", o),
    }
    match parse_isotp_segment(&[0x10, 0x14, 0x63, 1, 2, 3, 4, 5]) {
        IsoTpSegment::First { total_len, .. } => assert_eq!(total_len, 20),
        o => panic!("{:?}", o),
    }
    match parse_isotp_segment(&[0x30, 0x00, 0x00]) {
        IsoTpSegment::FlowControl(f) => assert_eq!(f.flag, FcFlag::Cts),
        o => panic!("{:?}", o),
    }
}

#[test]
fn assemble_multiframe_strict() {
    let segs = vec![
        IsoTpSegment::First { total_len: 10, data: vec![0x63, 1, 2, 3, 4, 5] },
        IsoTpSegment::Consecutive { seq: 1, data: vec![6, 7, 8, 9] },
    ];
    assert_eq!(assemble_multiframe(&segs).unwrap(), vec![0x63, 1, 2, 3, 4, 5, 6, 7, 8, 9]);
}

#[test]
fn fc_params_presets() {
    assert_eq!(FlowControlParams::fast().block_size, 0);
    assert_eq!(FlowControlParams::gentle().st_min_ms, 2);
}

// ── further cases ─────────────────────────────────────────────────────────

#[test]
fn flow_control_helpers() {
    assert_eq!(build_flow_control(0x11, 8, 5), [0x31, 8, 5, 0, 0, 0, 0, 0]);
    assert_eq!(build_flow_control_params(FlowControlParams::fast()), [0x30, 0, 0, 0, 0, 0, 0, 0]);
    let w = FlowControlFrame { flag: FcFlag::Wait, block_size: 1, st_min: 2 };
    assert_eq!(w.encode_short(), [0x31, 1, 2]);
    assert_eq!(w.interpret_for_sender().unwrap_err(), "FC WAIT \u{2014} peer not ready");
    assert_eq!(FlowControlFrame::try_parse(&[0x30]).unwrap().st_min, 0);
    assert!(FlowControlFrame::try_parse(&[0x33, 0, 0]).is_none());
    assert!(FlowControlFrame::try_parse(&[0x20, 0, 0]).is_none());
    assert_eq!(FlowControlParams::default(), FlowControlParams::fast());
    assert_eq!(
        FlowControlFrame::cts(FlowControlParams::gentle()).interpret_for_sender().unwrap(),
        FlowControlParams::gentle()
    );
}

#[test]
fn single_frames() {
    assert_eq!(build_single_frame(&[0x22, 0xF1, 0x90]).unwrap(), [0x03, 0x22, 0xF1, 0x90, 0, 0, 0, 0]);
    assert_eq!(build_single_frame(&[0; 8]).unwrap_err(), "SF payload max 7 bytes");
    match parse_isotp_segment(&[0x05, 0x01]) {
        IsoTpSegment::Single(p) => assert!(p.is_empty()),
        o => panic!("{:?}", o),
    }
    match parse_isotp_segment(&[0x10]) {
        IsoTpSegment::Unknown(p) => assert_eq!(p, vec![0x10]),
        o => panic!("{:?}", o),
    }
    match parse_isotp_segment(&[0x45, 0x01]) {
        IsoTpSegment::Unknown(p) => assert_eq!(p, vec![0x45, 0x01]),
        o => panic!("{:?}", o),
    }
}

#[test]
fn strict_sequence_errors() {
    let a = MultiframeAssembler::from_first(20, vec![1, 2, 3]).with_strict_seq(true);
    let mut a = a;
    assert_eq!(a.push_cf(2, &[4]).unwrap_err(), "CF sequence error: got 2, expected 1");
    assert_eq!(a.received(), 3);
    assert_eq!(a.total_len(), 20);
    assert_eq!(a.finish().unwrap_err(), "ISO-TP incomplete: got 3/20 bytes");
    assert_eq!(assemble_multiframe(&[]).unwrap_err(), "No segments");
    assert_eq!(
        assemble_multiframe(&[IsoTpSegment::Unknown(vec![])]).unwrap_err(),
        "First segment must be First or Single frame"
    );
}

#[test]
fn segmented_payload_reassembles() {
    let data: Vec<u8> = (0..40u8).collect();
    let plan = plan_multiframe_tx(&data).unwrap();
    assert_eq!(plan.first[0], 0x10);
    assert_eq!(plan.first[1], 40);
    assert_eq!(plan.consecutive.len(), 5);
    assert_eq!(plan.consecutive[0][0], 0x21);
    let mut segs = vec![parse_isotp_segment(&plan.first)];
    for cf in &plan.consecutive {
        segs.push(parse_isotp_segment(cf));
    }
    assert_eq!(assemble_multiframe(&segs).unwrap(), data);
    assert_eq!(plan_multiframe_tx(&vec![0u8; 4096]).err().unwrap(), "ISO-TP max length 4095");
}

#[test]
fn retry_and_text_helpers() {
    assert!(fc_retry_needed("ISO-TP incomplete: got 3/20 bytes"));
    assert!(!fc_retry_needed("FC OVFLW"));
    assert_eq!(fc_retry_error("a", "b"), "a (gentle retry: b)");
    assert_eq!(elm_hex_to_bytes("41 0C 1A F8\r>"), vec![0x41, 0x0C, 0x1A, 0xF8]);
    assert_eq!(elm_hex_to_bytes("7E8 03"), vec![0x7E, 0x80, ]);
    let f = CanFrame { id: 0x7E0, data: vec![0x02, 0x10, 0x03], is_extended: false };
    assert_eq!(lawicel_frame_text(&f).unwrap(), "t7E03021003\r");
    let g = CanFrame { id: 0x7E0, data: vec![], is_extended: true };
    assert_eq!(lawicel_frame_text(&g).unwrap_err(), "Extended or long frames need framed ISO-TP");
    assert!(j2534_available(true));
    assert_eq!(j2534_list_devices(false), vec!["J2534 only supported on Windows".to_string()]);
    assert_eq!(j2534_list_devices(true).len(), 2);
}

#[test]
fn lawicel_receive_parses() {
    let f = parse_lawicel_frame(b"xxt7E8302AB01\r").unwrap();
    assert_eq!(f.id, 0x7E8);
    assert_eq!(f.data, vec![0x02, 0xAB, 0x01]);
    assert!(!f.is_extended);
    let g = parse_lawicel_frame(b"t7E89112233").unwrap();
    assert_eq!(g.data, vec![0x11, 0x22, 0x33]);
    let h = parse_lawicel_frame(b"tZZZ2zz05").unwrap();
    assert_eq!(h.id, 0);
    assert_eq!(h.data, vec![0x05]);
    assert_eq!(parse_lawicel_frame(b"t7E8").unwrap_err(), "No parseable CAN frame");
    assert_eq!(parse_lawicel_frame(b"no frame").unwrap_err(), "No parseable CAN frame");
    let text = lawicel_frame_text(&CanFrame { id: 0x7E0, data: vec![0x02, 0x10, 0x03], is_extended: false }).unwrap();
    let back = parse_lawicel_frame(text.as_bytes()).unwrap();
    assert_eq!((back.id, back.data), (0x7E0, vec![0x02, 0x10, 0x03]));
}

#[test]
fn tx_flow_control_decisions() {
    let fc = |flag, bs, st| IsoTpSegment::FlowControl(FlowControlFrame { flag, block_size: bs, st_min: st });
    assert_eq!(
        tx_fc_decision(0, &fc(FcFlag::Cts, 4, 10)),
        Ok(TxFcDecision::Send(FlowControlParams { block_size: 4, st_min_ms: 10 }))
    );
    assert_eq!(tx_fc_decision(0, &fc(FcFlag::Wait, 0, 0)), Ok(TxFcDecision::Wait));
    assert_eq!(tx_fc_decision(2, &fc(FcFlag::Wait, 0, 0)), Ok(TxFcDecision::Wait));
    assert!(tx_fc_decision(3, &fc(FcFlag::Wait, 0, 0)).unwrap_err().contains("WAIT"));
    assert!(tx_fc_decision(0, &fc(FcFlag::Overflow, 0, 0)).unwrap_err().contains("OVFLW"));
    assert_eq!(
        tx_fc_decision(1, &IsoTpSegment::Single(vec![0x62])),
        Ok(TxFcDecision::Send(FlowControlParams::fast()))
    );
    let peer = FlowControlParams { block_size: 2, st_min_ms: 0 };
    assert_eq!(tx_cf_allowed(0, peer), Ok(()));
    assert_eq!(tx_cf_allowed(1, peer), Ok(()));
    assert_eq!(tx_cf_allowed(2, peer), Err("TX block size exhausted without further FC".to_string()));
    assert_eq!(tx_cf_allowed(500, FlowControlParams::fast()), Ok(()));
    assert_eq!(tx_gap_ms(peer), 2);
    assert_eq!(tx_gap_ms(FlowControlParams { block_size: 0, st_min_ms: 20 }), 20);
}

#[test]
fn push_cf_run_appends_in_order_and_keeps_state_on_bad_counter() {
    let mut rx = MultiframeAssembler::from_first(16, vec![1, 2, 3, 4, 5, 6]).with_strict_seq(true);
    assert_eq!(rx.push_cf(1, &[7, 8, 9, 10, 11, 12, 13]), Ok(false));
    assert!(rx.push_cf(3, &[99]).unwrap_err().contains("CF sequence error"));
    assert_eq!(rx.received(), 13);
    assert_eq!(rx.push_cf(2, &[14, 15, 16, 17]), Ok(true));
    assert_eq!(rx.finish().unwrap(), (1..=16).collect::<Vec<u8>>());
}
