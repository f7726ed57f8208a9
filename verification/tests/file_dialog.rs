use tuneitverse::commands::{current_protocol, read_response, write_frame};
use tuneitverse::file_dialog::{cancelled, open_filters, opened, save_filter, save_name, saved};

#[test]
fn cancelled_shape() {
    let c = cancelled();
    assert!(c.cancelled);
    assert!(c.bytes.is_none());
}

#[test]
fn dialog_filters_and_results() {
    let f = open_filters("BIN");
    assert_eq!(f.len(), 2);
    assert_eq!(f[0].0, "BIN image");
    assert_eq!(f[1].1, vec!["*".to_string()]);
    assert_eq!(open_filters("xdf")[0].1, vec!["xdf".to_string(), "xml".to_string(), "txt".to_string()]);
    assert_eq!(open_filters("other")[0].0, "Text / defs");
    let o = opened("bin", "/x/a.bin".into(), vec![1, 2]);
    assert_eq!(o.bytes, Some(vec![1, 2]));
    assert!(o.text.is_none());
    let t = opened("csv", "/x/a.csv".into(), b"a,b\xff".to_vec());
    assert_eq!(t.text.as_deref(), Some("a,b\u{FFFD}"));
    assert_eq!(t.path.as_deref(), Some("/x/a.csv"));
    assert_eq!(save_name(None), "tuned.bin");
    assert_eq!(save_name(Some("x.csv".into())), "x.csv");
    assert_eq!(save_filter("LOG.CSV").0, "CSV");
    assert_eq!(save_filter("w.json").0, "JSON");
    assert_eq!(save_filter("t.bin").1, vec!["bin".to_string()]);
    assert!(!saved("/p".into()).cancelled);
}

#[test]
fn port_results() {
    assert_eq!(write_frame(Err("gone".into()), Ok(())).unwrap_err(), "Write failed: gone");
    assert_eq!(write_frame(Ok(()), Err("stuck".into())).unwrap_err(), "Flush failed: stuck");
    assert!(write_frame(Ok(()), Ok(())).is_ok());
    assert_eq!(read_response(Ok(vec![1])).unwrap(), vec![1]);
    assert_eq!(read_response(Ok(vec![])).unwrap_err(), "Empty response");
    assert_eq!(read_response(Err("timeout".into())).unwrap_err(), "Read failed: timeout");
    assert_eq!(current_protocol(Some(&"vpw".to_string())), "vpw");
    assert_eq!(current_protocol(None), "");
}
