use tuneitverse::live_verify::{probe_plan, probe_starts, window_offset};
use tuneitverse::scripting::{
    hex_bytes, line_done, parse_offset, poke, script_command, script_over, script_precheck, script_returns_image,
    script_run_start, script_step, script_tables, unknown_command_error, LineDone, ScriptCmd,
};
use tuneitverse::ecu_database::get_tables_for_bin_size;

#[test]
fn script_lines() {
    assert!(matches!(script_command("   "), ScriptCmd::Skip));
    assert!(matches!(script_command("# note"), ScriptCmd::Skip));
    assert!(matches!(script_command("HELP"), ScriptCmd::Help));
    assert!(matches!(script_command("?"), ScriptCmd::Help));
    assert!(matches!(script_command("validate"), ScriptCmd::Checksum));
    assert!(matches!(script_command("diff"), ScriptCmd::Compare));
    assert!(matches!(script_command("map_from_log"), ScriptCmd::MapLog));
    match script_command("seedkey EDC16C41 1A2B3C4D") {
        ScriptCmd::SeedKey { family, seed, level } => {
            assert_eq!((family.as_str(), seed.as_str(), level.as_str()), ("EDC16C41", "1A2B3C4D", "1"));
        },
        _ => panic!("seedkey"),
    }
    match script_command("seedkey") {
        ScriptCmd::SeedKey { family, seed, .. } => assert_eq!((family.as_str(), seed.as_str()), ("P01_0411", "")),
        _ => panic!("seedkey default"),
    }
    match script_command("poke 0x10 AA BB") {
        ScriptCmd::Poke { offset, hex } => {
            assert_eq!(offset.as_deref(), Some("0x10"));
            assert_eq!(hex, "AABB");
        },
        _ => panic!("poke"),
    }
    match script_command("frobnicate now") {
        ScriptCmd::Unknown { cmd } => assert_eq!(unknown_command_error(&cmd), "unknown command 'frobnicate'. Type help."),
        _ => panic!("unknown"),
    }
    assert_eq!(script_precheck(&ScriptCmd::Identify, true, true).as_deref(), Some("No working BIN. Load a dump first."));
    assert_eq!(script_precheck(&ScriptCmd::Compare, false, true).as_deref(), Some("Need a working BIN and a compare BIN."));
    assert!(script_precheck(&ScriptCmd::Help, true, true).is_none());
}

#[test]
fn offsets_and_hex() {
    assert_eq!(parse_offset("0x4000"), Ok(0x4000));
    assert_eq!(parse_offset(" 16 "), Ok(16));
    assert_eq!(parse_offset("0x").unwrap_err(), "bad offset: cannot parse integer from empty string");
    assert_eq!(parse_offset("12z").unwrap_err(), "bad offset: invalid digit found in string");
    assert_eq!(parse_offset("99999999999999999999999").unwrap_err(), "bad offset: number too large to fit in target type");
    assert_eq!(hex_bytes("AA bb"), Ok(vec![0xAA, 0xBB]));
    assert_eq!(hex_bytes("ABC").unwrap_err(), "hex must be even-length");
    assert_eq!(hex_bytes("").unwrap_err(), "hex must be even-length");
}

#[test]
fn poke_mutates() {
    let mut bin = vec![0u8; 8];
    assert_eq!(poke(&mut bin, Some("0x2"), "AABB"), Ok((2, 2)));
    assert_eq!(bin, vec![0, 0, 0xAA, 0xBB, 0, 0, 0, 0]);
    assert_eq!(poke(&mut bin, Some("7"), "0102").unwrap_err(), "poke past end: 7+2 > 8");
    assert_eq!(poke(&mut bin, None, "").unwrap_err(), "poke OFFSET HEX");
    assert_eq!(bin[7], 0);
}

#[test]
fn live_probe_plan() {
    let p = probe_plan("edc16c41");
    assert_eq!(p.cal_addr, 0x80000);
    assert!(p.bosch && !p.gm_vpw);
    let g = probe_plan("P01_0411");
    assert_eq!(g.cal_addr, 0x20000);
    assert!(g.gm_vpw && !g.bosch);
    let s = probe_starts(g);
    assert_eq!(s[1], (0x21000, "cal_plus_4k"));
    assert_eq!(window_offset(0x20000, 0x80000), 0x20000);
    assert_eq!(window_offset(0x20000, 0x1000), 0);
}

#[test]
fn tables_fall_back_to_the_size_catalog() {
    let bin = vec![0u8; 0x80000];
    let (tables, located, missing) = script_tables(&[], &bin, vec![]);
    assert_eq!((located, missing), (0, 0));
    let expected = get_tables_for_bin_size(&[], bin.len());
    assert_eq!(tables.len(), expected.len());
    for (a, b) in tables.iter().zip(expected.iter()) {
        assert_eq!(a.id, b.id);
        assert_eq!(a.addr, b.addr);
    }
}

#[test]
fn script_run_stops_at_first_error_and_tracks_mutation() {
    assert_eq!(line_done(&script_command("correct")), LineDone { mutated: true, skip: false });
    assert_eq!(line_done(&script_command("poke 0x10 AA")), LineDone { mutated: true, skip: false });
    assert_eq!(line_done(&script_command("# note")), LineDone { mutated: false, skip: true });
    assert_eq!(line_done(&script_command("identify")), LineDone { mutated: false, skip: false });
    let run = script_run_start();
    let (run, record) = script_step(run, Ok(LineDone { mutated: false, skip: true }));
    assert!(!record && !script_over(&run) && !script_returns_image(&run));
    let (run, record) = script_step(run, Ok(LineDone { mutated: true, skip: false }));
    assert!(record && !script_over(&run) && script_returns_image(&run));
    let (run, record) = script_step(run, Ok(LineDone { mutated: false, skip: false }));
    assert!(record && script_returns_image(&run));
    let (run, record) = script_step(run, Err("No BIN loaded".to_string()));
    assert!(record && script_over(&run) && script_returns_image(&run));
    assert_eq!(run.error.as_deref(), Some("No BIN loaded"));
}
