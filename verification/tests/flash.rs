use tuneitverse::checksum::crc32_ieee;
use tuneitverse::flash::{
    backup_quality, download_progress, family_override_note, guided_flash_precheck, uds_write_result, verify_outcome,
    vpw_chunk_progress, vpw_voltage_check_due, vpw_write_result, write_path, write_path_error, AdaptiveTiming,
    BackupQuality, WritePath, guided_flash_start, guided_flash_step, uds_voltage_check_due, FlashAction, FlashEvent, FlashStop,
};

#[test]
fn adaptive_timing_backs_off_and_caps() {
    let mut t = AdaptiveTiming::for_vpw();
    assert_eq!(t.delay(), 8);
    t.on_empty();
    assert_eq!(t.delay(), 16);
    t.on_empty();
    t.on_empty();
    assert_eq!(t.delay(), 64);
    t.on_empty();
    assert_eq!(t.delay(), 120);
    t.on_empty();
    assert_eq!(t.delay(), 120);
    t.on_success();
    assert_eq!(t.consecutive_empty, 0);
    let c = AdaptiveTiming::for_can();
    assert_eq!((c.base_ms, c.max_ms), (3, 60));
    let d = AdaptiveTiming::default();
    assert_eq!((d.base_ms, d.max_ms, d.consecutive_empty), (5, 80, 0));
    let mut s = AdaptiveTiming { base_ms: 1, max_ms: 10, consecutive_empty: u32::MAX };
    s.on_empty();
    assert_eq!(s.consecutive_empty, u32::MAX);
    assert_eq!(s.delay(), 10);
}

#[test]
fn guided_flash_decisions() {
    assert_eq!(guided_flash_precheck(false, 10).as_deref(), Some("Risks not confirmed"));
    assert_eq!(guided_flash_precheck(true, 0).as_deref(), Some("Empty tuned_bin"));
    assert!(guided_flash_precheck(true, 1).is_none());
    assert_eq!(
        family_override_note("EDC17", "P01_0411").as_deref(),
        Some("UI family 'EDC17' overridden by identify 'P01_0411'")
    );
    assert!(family_override_note("p01_0411", "P01_0411").is_none());
    assert!(family_override_note("AUTO", "P01_0411").is_none());
    assert!(family_override_note("", "P01_0411").is_none());
    assert_eq!(write_path("HONDA_KEIHIN"), WritePath::HondaRefused);
    assert_eq!(write_path("EDC16C41"), WritePath::BoschUds { cal_addr: 0x80000 });
    assert_eq!(write_path("ME7_COMMON"), WritePath::NoPath);
    assert_eq!(write_path("bosch_me7"), WritePath::BoschUds { cal_addr: 0x18000 });
    assert_eq!(write_path("P01_0411"), WritePath::GmVpw { cal_addr: 0x20000 });
    assert_eq!(write_path("TOYOTA"), WritePath::NoPath);
    assert_eq!(
        write_path_error(WritePath::NoPath, "TOYOTA").as_deref(),
        Some("No verified write path for family TOYOTA")
    );
    assert_eq!(
        write_path_error(WritePath::HondaRefused, "x").as_deref(),
        Some("Honda write path is not enabled. No verified kernel or corrector.")
    );
    assert!(write_path_error(WritePath::GmVpw { cal_addr: 0x20000 }, "P01").is_none());
}

#[test]
fn progress_and_write_results() {
    let p = download_progress(512, 1024);
    assert_eq!((p.bytes_done, p.bytes_total, p.percent), (512, 1024, 50));
    assert_eq!(download_progress(0, 0).percent, 0);
    let v = vpw_chunk_progress(2, 128, 300);
    assert_eq!((v.bytes_done, v.percent), (300, 100));
    let v = vpw_chunk_progress(0, 128, 300);
    assert_eq!((v.bytes_done, v.percent), (128, 42));
    assert!(!vpw_voltage_check_due(0));
    assert!(vpw_voltage_check_due(5));
    assert!(vpw_voltage_check_due(10));
    assert!(!vpw_voltage_check_due(11));
    assert!(!uds_voltage_check_due(0));
    assert!(!uds_voltage_check_due(3));
    assert!(uds_voltage_check_due(4));
    assert!(uds_voltage_check_due(8));
    assert!(!uds_voltage_check_due(9));
    let img = vec![7u8; 0x801];
    let u = uds_write_result(&img);
    assert_eq!((u.bytes_written, u.blocks_written, u.crc32_written), (0x801, 3, crc32_ieee(&img)));
    let g = vpw_write_result(&img, 128);
    assert_eq!(g.blocks_written, 17);
    assert_eq!(backup_quality(true), BackupQuality::Failed);
    assert_eq!(backup_quality(false), BackupQuality::PartialDidOnly);
    let ok = verify_outcome(Ok((0xABCD, true)), false);
    assert!(ok.success && ok.verified_live && ok.verification_crc == Some(0xABCD) && ok.error.is_none());
    let bad = verify_outcome(Err("no windows".into()), true);
    assert!(bad.success && !bad.verified_live && bad.error.as_deref() == Some("no windows"));
}

fn run_flash(backup: bool, events: &[FlashEvent]) -> Vec<FlashAction> {
    let (mut s, a) = guided_flash_start(true, 16, backup);
    let mut actions = vec![a];
    for &e in events {
        let (n, a) = guided_flash_step(&s, e);
        s = n;
        actions.push(a);
    }
    actions
}

#[test]
fn guided_flash_steps_through_every_gate() {
    let gm = WritePath::GmVpw { cal_addr: 0x20000 };
    let actions = run_flash(
        true,
        &[
            FlashEvent::Identified { path: gm },
            FlashEvent::Voltage { ok: true },
            FlashEvent::ImageChecked { honda: false },
            FlashEvent::BackupDone { ok: true },
            FlashEvent::UnlockDone { ok: true },
            FlashEvent::Voltage { ok: true },
            FlashEvent::WriteDone { ok: true },
        ],
    );
    assert_eq!(
        actions,
        vec![
            FlashAction::Identify,
            FlashAction::ReadVoltage,
            FlashAction::CheckImage,
            FlashAction::Backup,
            FlashAction::Unlock,
            FlashAction::ReadVoltage,
            FlashAction::Write,
            FlashAction::Verify,
        ]
    );
    // Without a backup the image guard leads straight to the unlock.
    let actions = run_flash(
        false,
        &[FlashEvent::Identified { path: gm }, FlashEvent::Voltage { ok: true }, FlashEvent::ImageChecked { honda: false }],
    );
    assert_eq!(actions.last(), Some(&FlashAction::Unlock));
}

#[test]
fn guided_flash_stops_fail_closed() {
    let stop = |r| FlashAction::Stop { reason: r };
    assert_eq!(guided_flash_start(false, 16, true).1, stop(FlashStop::RisksNotConfirmed));
    assert_eq!(guided_flash_start(true, 0, true).1, stop(FlashStop::EmptyImage));
    let bosch = WritePath::BoschUds { cal_addr: 0x80000 };
    assert_eq!(run_flash(true, &[FlashEvent::IdentifyFailed]).last(), Some(&stop(FlashStop::IdentifyRefused)));
    assert_eq!(
        run_flash(true, &[FlashEvent::Identified { path: bosch }, FlashEvent::Voltage { ok: false }]).last(),
        Some(&stop(FlashStop::VoltageLow))
    );
    let to_image = [FlashEvent::Identified { path: bosch }, FlashEvent::Voltage { ok: true }];
    let mut ev = to_image.to_vec();
    ev.push(FlashEvent::ImageChecked { honda: true });
    assert_eq!(run_flash(true, &ev).last(), Some(&stop(FlashStop::HondaImage)));
    let mut ev = to_image.to_vec();
    ev.extend([FlashEvent::ImageChecked { honda: false }, FlashEvent::BackupDone { ok: false }]);
    assert_eq!(run_flash(true, &ev).last(), Some(&stop(FlashStop::BackupFailed)));
    let mut ev = to_image.to_vec();
    ev.extend([FlashEvent::ImageChecked { honda: false }, FlashEvent::UnlockDone { ok: false }]);
    assert_eq!(run_flash(false, &ev).last(), Some(&stop(FlashStop::UnlockFailed)));
    // The voltage is checked again right before the write.
    let mut ev = to_image.to_vec();
    ev.extend([FlashEvent::ImageChecked { honda: false }, FlashEvent::UnlockDone { ok: true }, FlashEvent::Voltage { ok: false }]);
    assert_eq!(run_flash(false, &ev).last(), Some(&stop(FlashStop::VoltageLow)));
    // A family without a write path stops after the image guard.
    let ev = [FlashEvent::Identified { path: WritePath::HondaRefused }, FlashEvent::Voltage { ok: true }, FlashEvent::ImageChecked { honda: false }];
    assert_eq!(run_flash(false, &ev).last(), Some(&stop(FlashStop::NoWritePath)));
    // An event out of turn stops too, and a stopped flash stays stopped.
    assert_eq!(run_flash(true, &[FlashEvent::WriteDone { ok: true }]).last(), Some(&stop(FlashStop::OutOfOrder)));
    assert_eq!(
        run_flash(true, &[FlashEvent::IdentifyFailed, FlashEvent::Identified { path: bosch }]).last(),
        Some(&stop(FlashStop::OutOfOrder))
    );
}

#[test]
fn vpw_delay_follows_its_closed_form() {
    let mut t = AdaptiveTiming::for_vpw();
    let mut seen = vec![t.delay()];
    for _ in 0..6 {
        t.on_empty();
        seen.push(t.delay());
    }
    assert_eq!(seen, vec![8, 16, 32, 64, 120, 120, 120]);
    t.on_success();
    assert_eq!(t.delay(), 8);
    t.on_empty();
    assert_eq!(t.delay(), 16);
}

#[test]
fn guided_flash_voltage_during_the_write_and_vpw_unlock() {
    let gm = WritePath::GmVpw { cal_addr: 0x20000 };
    let bosch = WritePath::BoschUds { cal_addr: 0x80000 };
    let to_write = |p| {
        vec![
            FlashEvent::Identified { path: p },
            FlashEvent::Voltage { ok: true },
            FlashEvent::ImageChecked { honda: false },
            FlashEvent::UnlockDone { ok: true },
            FlashEvent::Voltage { ok: true },
        ]
    };
    // A passing check during the download lets it go on; a sag stops it.
    let mut ev = to_write(bosch);
    ev.push(FlashEvent::Voltage { ok: true });
    assert_eq!(run_flash(false, &ev).last(), Some(&FlashAction::KeepWriting));
    ev.push(FlashEvent::Voltage { ok: false });
    assert_eq!(run_flash(false, &ev).last(), Some(&FlashAction::Stop { reason: FlashStop::VoltageLow }));
    ev.push(FlashEvent::WriteDone { ok: true });
    assert_eq!(run_flash(false, &ev).last(), Some(&FlashAction::Stop { reason: FlashStop::OutOfOrder }));
    // A refused GM VPW unlock does not stop the pipeline.
    let mut ev = to_write(gm);
    ev[3] = FlashEvent::UnlockDone { ok: false };
    assert_eq!(run_flash(false, &ev).last(), Some(&FlashAction::Write));
}
