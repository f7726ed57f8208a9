use tuneitverse::j2534::{
    data_rate_param, iso15765_timing_params, vpw_speed_param, ConfigParam, CONFIG_DATA_RATE, CONFIG_ISO15765_BS,
    CONFIG_ISO15765_STMIN, IOCTL_CLEAR_RX_BUFFER, IOCTL_GET_CONFIG, IOCTL_READ_VBATT, IOCTL_SET_CONFIG,
    VPW_BAUD_HIGH, VPW_BAUD_NORMAL,
};
use tuneitverse::j2534::{ioctl_handle, opened_device_id, read_batch_len, unbound_connect_channel};
use tuneitverse::j2534_list::{merge_registry_rows, parse_reg_query, passthru_registry_roots, registry_device_list};

#[test]
fn vpw_baud_constants() {
    assert_eq!(VPW_BAUD_NORMAL, 10_400);
    assert_eq!(VPW_BAUD_HIGH, 41_600);
    assert_eq!(VPW_BAUD_HIGH, VPW_BAUD_NORMAL * 4);
}

#[test]
fn ioctl_ids_match_spec() {
    assert_eq!(IOCTL_GET_CONFIG, 0x01);
    assert_eq!(IOCTL_SET_CONFIG, 0x02);
    assert_eq!(IOCTL_READ_VBATT, 0x03);
    assert_eq!(IOCTL_CLEAR_RX_BUFFER, 0x08);
    assert_eq!(CONFIG_DATA_RATE, 0x01);
    assert_eq!(CONFIG_ISO15765_STMIN, 0x1F);
    assert_eq!(CONFIG_ISO15765_BS, 0x1E);
}

#[test]
fn parses_reg_query_block() {
    let sample = "HKEY_LOCAL_MACHINE\\SOFTWARE\\PassThruSupport.04.04\\OpenPort\n    Name    REG_SZ    Tactrix OpenPort 2.0\n    Vendor    REG_SZ    Tactrix\n    FunctionLibrary    REG_SZ    C:\\Windows\\OpenPort.dll\n";
    let rows = parse_reg_query(sample);
    assert_eq!(rows.len(), 1);
    assert!(rows[0].contains("Tactrix OpenPort 2.0"));
    assert!(rows[0].contains("OpenPort.dll"));
}

// ── further cases ─────────────────────────────────────────────────────────

#[test]
fn reg_query_rows_exact() {
    let sample = "HKEY_A\r\n  Name  REG_SZ  Dev  One\r\n  FUNCTION_LIBRARY REG_SZ x.dll\r\nHKEY_B\n  Vendor REG_SZ V\nHKEY_C\n  FunctionLibrary REG_SZ y.dll";
    let rows = parse_reg_query(sample);
    assert_eq!(rows, vec!["Dev One | ? | x.dll".to_string(), "J2534 device | V | y.dll".to_string()]);
    assert!(parse_reg_query("").is_empty());
    assert!(parse_reg_query("HKEY_X\n Vendor REG_SZ only").is_empty());
}

#[test]
fn config_params() {
    assert_eq!(data_rate_param(500_000), ConfigParam { parameter: 1, value: 500_000 });
    assert_eq!(vpw_speed_param(true).value, 41_600);
    assert_eq!(vpw_speed_param(false).value, 10_400);
    let p = iso15765_timing_params(2, 16);
    assert_eq!(p[0], ConfigParam { parameter: 0x1F, value: 2 });
    assert_eq!(p[1], ConfigParam { parameter: 0x1E, value: 16 });
}

#[test]
fn device_session_decisions() {
    assert_eq!(opened_device_id(0), 1);
    assert_eq!(opened_device_id(7), 7);
    assert_eq!(unbound_connect_channel(0x05), Ok(1));
    assert_eq!(unbound_connect_channel(0x06), Ok(1));
    assert_eq!(unbound_connect_channel(0x02), Ok(1));
    assert_eq!(unbound_connect_channel(0x03), Err("Protocol 3 not supported without full binding".to_string()));
    assert_eq!(ioctl_handle(0, 0), None);
    assert_eq!(ioctl_handle(5, 0), Some(5));
    assert_eq!(ioctl_handle(5, 9), Some(9));
    assert_eq!(read_batch_len(100), 32);
    assert_eq!(read_batch_len(4), 4);
}

#[test]
fn registry_rows_merge_and_fallback() {
    assert_eq!(passthru_registry_roots()[0], r"HKLM\SOFTWARE\PassThruSupport.04.04");
    assert_eq!(passthru_registry_roots()[3], r"HKLM\SOFTWARE\WOW6432Node\PassThruSupport.04.00");
    let mut found = vec!["a".to_string()];
    merge_registry_rows(&mut found, vec!["b".to_string(), "a".to_string(), "b".to_string(), "c".to_string()]);
    assert_eq!(found, vec!["a", "b", "c"]);
    assert_eq!(registry_device_list(found.clone()), found);
    assert_eq!(
        registry_device_list(vec![]),
        vec!["No PassThruSupport registry keys. Install a vendor J2534 driver, then pick the .dll path.".to_string()]
    );
}
