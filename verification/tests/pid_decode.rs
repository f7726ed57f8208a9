use tuneitverse::pid_decode::{
    decode_fuel_system_status_str, decode_pid1100, decode_pid1102, decode_pid1103, decode_pid1105, decode_pid1116,
    pid_meta, pid_name, pid_unit,
};

#[test]
fn test_pid1105_flags() {
    let flags = decode_pid1105(&[0b00100001]).unwrap();
    assert!(flags.closed_loop);
    assert!(flags.fuel_trim_learn);
    assert!(!flags.decel);
}

// ── further cases ─────────────────────────────────────────────────────────

#[test]
fn pid_names_and_units() {
    assert_eq!(pid_name(0x000C), "Engine RPM");
    assert_eq!(pid_unit(0x000C), "RPM");
    assert_eq!(pid_unit(0x0005), "°C");
    assert_eq!(pid_name(0x1336), "Torque Request");
    assert_eq!(pid_unit(0x1336), "N·m");
    assert_eq!(pid_name(0xFC05), "EGR PWM Duty Cycle");
    assert_eq!(pid_name(0x7777), "Unknown PID");
    assert_eq!(pid_unit(0x7777), "raw");
    let m = pid_meta(0x000B, 1);
    assert_eq!((m.pid, m.name, m.unit, m.bytes), (0x000B, "MAP", "kPa", 1));
}

#[test]
fn status_texts_and_flag_registers() {
    assert_eq!(decode_fuel_system_status_str(&[2]), "Closed Loop");
    assert_eq!(decode_fuel_system_status_str(&[8, 1]), "Open Loop - Low Temp");
    assert_eq!(decode_fuel_system_status_str(&[3]), "Unknown");
    assert_eq!(decode_fuel_system_status_str(&[]), "Unknown");
    assert!(decode_pid1100(&[]).is_none());
    let f = decode_pid1100(&[0x81]).unwrap();
    assert!(f.ac_request && f.gen_l_terminal && !f.pcm_reset);
    let f = decode_pid1102(&[0x60]).unwrap();
    assert!(f.powertrain_chassis_pitch && f.extended_travel_brake && !f.traction_control_active);
    let f = decode_pid1103(&[0x02]).unwrap();
    assert!(f.mil_command && !f.oil_level_low);
    let f = decode_pid1116(&[0x48]).unwrap();
    assert!(f.app_sensors_agree && f.cruise_resume_accel && !f.cruise_on_off);
}
