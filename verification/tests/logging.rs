use tuneitverse::logging::{
    apply_template, channels_after_import, default_channels, ensure_initialized, export_csv, list_templates, read_csv,
    set_channels, split_cells, LogChannel, LogRow,
};

#[test]
fn templates_exist() {
    assert!(list_templates().len() >= 4);
}

#[test]
fn diesel_template_has_no_invented_pids() {
    let d = list_templates().into_iter().find(|t| t.id == "diesel").unwrap();
    for banned in ["rail", "iq", "vgt", "boost"] {
        assert!(!d.pids.iter().any(|p| p == banned), "diesel template still lists {}", banned);
    }
}

#[test]
fn init_and_channel_selection() {
    let mut chans: Vec<LogChannel> = Vec::new();
    let mut name = String::new();
    ensure_initialized(&mut chans, &mut name, 1234);
    assert_eq!(chans.len(), 15);
    assert_eq!(name, "log_1234");
    ensure_initialized(&mut chans, &mut name, 99);
    assert_eq!(name, "log_1234");
    set_channels(&mut chans, &["MAP".to_string(), "ltft".to_string()]);
    let on: Vec<&str> = chans.iter().filter(|c| c.enabled).map(|c| c.id.as_str()).collect();
    assert_eq!(on, vec!["map", "ltft"]);
    set_channels(&mut chans, &["nothing".to_string()]);
    let on: Vec<&str> = chans.iter().filter(|c| c.enabled).map(|c| c.id.as_str()).collect();
    assert_eq!(on, vec!["rpm"]);
    assert_eq!(apply_template(&mut chans, "LS1").unwrap(), 20);
    let on: Vec<&str> = chans.iter().filter(|c| c.enabled).map(|c| c.id.as_str()).collect();
    assert_eq!(on, vec!["rpm", "map", "tps", "spark", "stft", "ltft"]);
    assert_eq!(apply_template(&mut chans, "full").unwrap(), 5);
    assert!(chans.iter().all(|c| c.enabled));
    assert_eq!(apply_template(&mut chans, "race").unwrap_err(), "Unknown template: race");
    assert_eq!(default_channels()[8].pid, 0x1141);
}

#[test]
fn export_csv_text() {
    let mut chans = default_channels();
    set_channels(&mut chans, &["rpm".to_string(), "map".to_string()]);
    assert_eq!(export_csv(&chans, &[]).unwrap_err(), "No samples to export");
    let rows = vec![
        LogRow { timestamp_ms: 1, values: vec![("rpm".into(), "2000.000".into()), ("map".into(), "60.500".into())] },
        LogRow { timestamp_ms: 2, values: vec![("map".into(), "61.000".into())] },
    ];
    assert_eq!(export_csv(&chans, &rows).unwrap(), "timestamp_ms,rpm,map\n1,2000.000,60.500\n2,,61.000\n");
}

#[test]
fn csv_text_reads_into_cells() {
    let t = read_csv("\n Timestamp_MS, \"RPM\" ,map\r\n1,2000, 60\n\n2,,\"62\"\n").unwrap();
    assert_eq!(t.columns, vec!["timestamp_ms", "rpm", "map"]);
    assert_eq!(t.rows, vec![vec!["1", "2000", "60"], vec!["2", "", "62"]]);
    assert_eq!(t.time_column, Some(0));
    assert_eq!(read_csv(" \n\t\n").err().unwrap(), "CSV is empty");
    let u = read_csv("rpm,time_ms\n1,2").unwrap();
    assert_eq!(u.time_column, Some(1));
    assert_eq!(read_csv("rpm").unwrap().time_column, None);
    let cells: Vec<String> = split_cells(&"a,,\"b\"".chars().collect::<Vec<char>>());
    assert_eq!(cells, vec!["a", "", "b"]);
}

#[test]
fn import_adds_and_enables_used_channels() {
    let mut chs = vec![
        LogChannel { id: "rpm".into(), name: "Engine RPM".into(), unit: "RPM".into(), pid: 0x0C, enabled: false },
        LogChannel { id: "map".into(), name: "MAP".into(), unit: "kPa".into(), pid: 0x0B, enabled: true },
    ];
    channels_after_import(&mut chs, &["rpm".to_string(), "boost".to_string()]);
    assert_eq!(chs.len(), 3);
    assert!(chs[0].enabled);
    assert!(!chs[1].enabled);
    assert_eq!((chs[2].id.as_str(), chs[2].name.as_str(), chs[2].unit.as_str(), chs[2].pid, chs[2].enabled), ("boost", "boost", "", 0, true));
}

#[test]
fn exported_csv_reads_back() {
    let mut chans = default_channels();
    set_channels(&mut chans, &["rpm".to_string(), "map".to_string()]);
    let rows = vec![
        LogRow { timestamp_ms: 1, values: vec![("rpm".into(), "2000.000".into()), ("map".into(), "60.500".into())] },
        LogRow { timestamp_ms: 2, values: vec![("map".into(), "61.000".into())] },
    ];
    let text = export_csv(&chans, &rows).unwrap();
    let t = read_csv(&text).unwrap();
    assert_eq!(t.columns, vec!["timestamp_ms", "rpm", "map"]);
    assert_eq!(t.time_column, Some(0));
    assert_eq!(t.rows, vec![vec!["1", "2000.000", "60.500"], vec!["2", "", "61.000"]]);
}
