use tuneitverse::a2l::parse_a2l;

#[test]
fn parses_characteristic() {
    let a2l = r#"
        /begin CHARACTERISTIC VE_MAIN "Main volumetric efficiency" MAP 0x4000
          /begin AXIS_DESCR
          /end AXIS_DESCR
          /begin AXIS_DESCR
          /end AXIS_DESCR
          PHYS_UNIT "%"
        /end CHARACTERISTIC
        "#;
    let defs = parse_a2l(a2l);
    assert_eq!(defs.len(), 1);
    assert_eq!(defs[0].name, "VE_MAIN");
    assert!(defs[0].addr.to_ascii_uppercase().contains("4000"));
    assert!(defs[0].rows >= 16);
}

#[test]
fn a2l_block_fields() {
    let a2l = "/begin CHARACTERISTIC KFZW \"Ignition map\" MAP 0x1c000 RL 0 CM 0 255\r\n\
               FORMAT \"%5.2\" x*0.75\n\
               PHYS_UNIT \"deg\"\n\
               /end CHARACTERISTIC\n\
               /begin MEASUREMENT\n\
               nmot_w\n\
               ECU_ADDRESS 0x380A2C\n\
               /end MEASUREMENT\n\
               /begin MEASUREMENT \"only a quote\"\n\
               /end MEASUREMENT\n";
    let defs = parse_a2l(a2l);
    assert_eq!(defs.len(), 2);
    assert_eq!(defs[0].id, "kfzw");
    assert_eq!(defs[0].addr, "0x1C000");
    assert_eq!(defs[0].category.as_deref(), Some("A2L MAP"));
    assert_eq!((defs[0].rows, defs[0].cols), (16, 16));
    assert_eq!(defs[0].math, "FORMAT \"%5.2\" x*0.75");
    assert_eq!(defs[0].units, "deg");
    assert_eq!(defs[0].description, "Ignition map");
    assert_eq!(defs[1].name, "nmot_w");
    assert_eq!(defs[1].addr, "0x380A2C");
    assert_eq!(defs[1].description, "A2L nmot_w");
    assert_eq!(defs[1].category.as_deref(), Some("A2L VALUE"));
    assert_eq!(defs[1].math, "X");
    assert_eq!(defs[1].data_type, "UWORD");
}

#[test]
fn a2l_curve_and_default_address() {
    let a2l = "/begin CHARACTERISTIC CRV \"c\" CURVE\n/begin AXIS_DESCR\n/end CHARACTERISTIC\n";
    let defs = parse_a2l(a2l);
    assert_eq!(defs.len(), 1);
    assert_eq!(defs[0].addr, "0x00000000");
    assert_eq!((defs[0].rows, defs[0].cols), (16, 16));
    assert!(parse_a2l("").is_empty());
}
