use tuneitverse::xdf::{
    extract_raw_values, extract_tag, normalize_addr, parse_addr, parse_table_definitions, patch_message, patch_range_check, patch_raw_values,
    TableDataXml, TableDef,
};

fn chars(s: &str) -> Vec<char> {
    s.chars().collect()
}

fn def(addr: &str, dtype: &str) -> TableDef {
    TableDef { name: "VE".into(), addr: addr.into(), data_type: dtype.into(), ..Default::default() }
}

#[test]
fn addresses() {
    assert_eq!(parse_addr(" 0x4000 "), 0x4000);
    assert_eq!(parse_addr("1a00"), 0x1A00);
    assert_eq!(parse_addr("zz"), 0x8000);
    assert_eq!(normalize_addr("0x1C000"), "0x1C000");
    assert_eq!(normalize_addr("123"), "0x0000007B");
    assert_eq!(normalize_addr("xyz"), "0x00008000");
}

#[test]
fn tags() {
    assert_eq!(extract_tag(&chars("<Name> VE main </Name>"), "Name"), Some(chars("VE main")));
    assert_eq!(extract_tag(&chars("<Name></Name>"), "Name"), None);
    assert_eq!(extract_tag(&chars("<Rows>16</Rows>"), "Name"), None);
}

#[test]
fn table_data_entries() {
    let e = TableDataXml {
        name: "Main VE".into(),
        address: "".into(),
        rows: "16".into(),
        cols: "x".into(),
        math: "".into(),
        units: "%".into(),
        description: "d".into(),
        data_type: "".into(),
        category: "Fuel".into(),
    };
    let defs = parse_table_definitions("", Some(vec![e]));
    assert_eq!(defs.len(), 1);
    assert_eq!(defs[0].id, "main_ve");
    assert_eq!(defs[0].addr, "0x00008000");
    assert_eq!((defs[0].rows, defs[0].cols), (16, 1));
    assert_eq!(defs[0].data_type, "UWORD");
    assert_eq!(defs[0].math, "X");
    assert_eq!(defs[0].category.as_deref(), Some("Fuel"));
}

#[test]
fn tableseek_fallback_scan() {
    let xml = "<ArrayOfTableSeek>\n  <TableSeek>\n    <Name>Spark Hi</Name>\n    <RefAddress>0x2000</RefAddress>\n    <Rows>12</Rows>\n  </TableSeek>\n  <TableSeek>\n    <Rows>3</Rows>\n  </TableSeek>\n  <TableSeek><Name>One</Name><Math>X*2</Math></TableSeek>\n</ArrayOfTableSeek>\n";
    let defs = parse_table_definitions(xml, None);
    assert_eq!(defs.len(), 2);
    assert_eq!(defs[0].id, "spark_hi");
    assert_eq!(defs[0].addr, "0x2000");
    assert_eq!((defs[0].rows, defs[0].cols), (12, 1));
    assert_eq!(defs[1].name, "One");
    assert_eq!(defs[1].math, "X*2");
    assert_eq!(defs[1].addr, "0x00008000");
    assert!(parse_table_definitions("junk", Some(vec![])).is_empty());
}

#[test]
fn patch_checks_and_writes() {
    let d = def("0x10", "UWORD");
    assert!(patch_range_check(0x20, &d, 2, 4).is_ok());
    assert_eq!(
        patch_range_check(0x18, &d, 2, 4).unwrap_err(),
        "Refuse patch: table 'VE' needs offset 0x10..0x20 but BIN is only 24 bytes (addr 0x10 + cal base 0x0). Wrong definition or wrong image size."
    );
    assert_eq!(patch_message(&d, 2, 4), "Patched table VE at 0x10 (2x4)");
    let bin = vec![0u8; 0x14];
    let out = patch_raw_values(bin, &d, &[vec![0x1234, -1], vec![7]]);
    assert_eq!(&out[0x10..0x14], &[0x12, 0x34, 0xFF, 0xFF]);
    let b = def("2", "UBYTE");
    let out = patch_raw_values(vec![9u8; 4], &b, &[vec![300, -5, 17]]);
    assert_eq!(out, vec![9, 9, 255, 0]);
}

#[test]
fn extract_reads_raw_cells() {
    let mut d = def("0x2", "UWORD");
    d.rows = 2;
    d.cols = 2;
    let bin = vec![0, 0, 0x12, 0x34, 0xFF, 0xFF, 0x00, 0x07, 0x80, 0x00];
    assert_eq!(extract_raw_values(&bin, &d), Some(vec![vec![0x1234, 0xFFFF], vec![7, 0x8000]]));
    let mut s = def("0x2", "sword");
    s.rows = 2;
    s.cols = 2;
    assert_eq!(extract_raw_values(&bin, &s), Some(vec![vec![0x1234, -1], vec![7, -0x8000]]));
    assert_eq!(extract_raw_values(&bin[..9], &d), None);
    let b = def("1", "SBYTE");
    assert_eq!(extract_raw_values(&[0, 0xFE], &b), Some(vec![vec![-2]]));
    assert_eq!(extract_raw_values(&[0], &b), None);
}

#[test]
fn patch_then_extract_gives_values_back() {
    let mut d = def("0x4", "SWORD");
    d.rows = 2;
    d.cols = 3;
    let raws = vec![vec![-0x8000, -1, 0], vec![1, 0x7FFF, 1234]];
    let out = patch_raw_values(vec![0xAA; 0x10], &d, &raws);
    assert_eq!(extract_raw_values(&out, &d), Some(raws));
    let mut b = def("0", "UBYTE");
    b.cols = 4;
    let raws = vec![vec![0, 1, 0x80, 0xFF]];
    let out = patch_raw_values(vec![5; 4], &b, &raws);
    assert_eq!(extract_raw_values(&out, &b), Some(raws));
}
