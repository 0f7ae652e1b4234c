use cloudy_af::firmware::definition::{parse_definition, FirmwareDefinition};
use cloudy_af::firmware::error::FirmwareError;
use cloudy_af::firmware::loader::load_firmware_from_bytes;
use cloudy_af::firmware::patch::{apply_patch, find_conflicts, parse_patch, rollback_other_animations, rollback_patch};
use std::collections::HashMap;

const PATCH_XML: &str = r#"<?xml version="1.0"?>
<Patch Name="Test Patch" Version="1.0" Author="Dev">
  <Description>Test</Description>
  <Data>
0x10: 0x00 - 0xFF
0x11: 0x01 - 0xAA
# comment
0x12: * - 0xBB
  </Data>
</Patch>"#;

#[test]
fn definition_test_parse_arcticfox_definition() {
    let xml = r#"<FirmwareDefinition Name="ArcticFox">
    <Marker Offset="0x140" Bytes="0x41 0x46 0x4F 0x58" />
    <ImageTable1 PtrFrom="0x144" PtrTo="0x148" />
    <ImageTable2 PtrFrom="0x14C" PtrTo="0x150" />
    <StringTable1 PtrFrom="0x154" PtrTo="0x158" TwoBytesPerChar="false" />
</FirmwareDefinition>"#;
    let defs = parse_definition(xml).unwrap();
    assert_eq!(defs.len(), 1);
    assert_eq!(defs[0].name, "ArcticFox");
    assert_eq!(defs[0].marker, vec![0x41, 0x46, 0x4F, 0x58]);
    assert_eq!(defs[0].image_table_1, 0x144..0x148);
    assert_eq!(defs[0].string_table_1, 0x154..0x158);
    assert_eq!(defs[0].char_width, 1);
}

#[test]
fn definition_test_test_parse_arcticfox_definition() {
    let xml = r#"<?xml version="1.0"?>
<FirmwareDefinition Name="ArcticFox">
  <Marker Offset="0x140" Bytes="0x41 0x46 0x4F 0x58" />
  <ImageTable1 PtrFrom="0x144" PtrTo="0x148" />
  <ImageTable2 PtrFrom="0x14C" PtrTo="0x150" />
  <StringTable1 PtrFrom="0x154" PtrTo="0x158" TwoBytesPerChar="false" />
</FirmwareDefinition>"#;
    let defs = parse_definition(xml).unwrap();
    assert_eq!(defs.len(), 1);
    assert_eq!(defs[0].name, "ArcticFox");
    assert_eq!(defs[0].marker, vec![0x41, 0x46, 0x4F, 0x58]);
    assert_eq!(defs[0].id, "arcticfox");
    assert_eq!(defs[0].image_table_1, 0x144..0x148);
    assert_eq!(defs[0].image_table_2, 0x14C..0x150);
    assert_eq!(defs[0].string_table_1, 0x154..0x158);
    assert_eq!(defs[0].char_width, 1);
}

#[test]
fn test_definition_ids_wide_strings_and_decimal_addresses() {
    let xml = r#"<Definitions>
  <Definition Name="Arctic Fox STM">
    <Marker Bytes="4A6F79" />
    <StringTable1 From="340" To="0x158" TwoBytesPerChar=" YES " />
    <StringTable2 From="0X10" To="0x20" />
  </Definition>
  <Marker Bytes="zz" />
</Definitions>"#;
    let defs = parse_definition(xml).unwrap();
    assert_eq!(defs.len(), 1);
    assert_eq!(defs[0].id, "arctic-fox-stm");
    assert_eq!(defs[0].marker, vec![0x4A, 0x6F, 0x79]);
    assert_eq!(defs[0].string_table_1, 340..0x158);
    assert_eq!(defs[0].string_table_2, 0x10..0x20);
    assert_eq!(defs[0].char_width, 2);
}

#[test]
fn test_definition_errors() {
    // An odd number of hex digits, a bad address and a broken document are refused.
    let odd = r#"<FirmwareDefinition Name="A"><Marker Bytes="0x4" /></FirmwareDefinition>"#;
    assert!(matches!(parse_definition(odd), Err(FirmwareError::Xml(_))));
    let bad = r#"<FirmwareDefinition Name="A"><ImageTable1 PtrFrom="0xZZ" /></FirmwareDefinition>"#;
    assert!(matches!(parse_definition(bad), Err(FirmwareError::Xml(_))));
    let broken = r#"<FirmwareDefinition Name="A"></Other>"#;
    assert!(matches!(parse_definition(broken), Err(FirmwareError::Xml(_))));
}

#[test]
fn test_detect_definition_by_marker() {
    let mut bytes = vec![0u8; 1024];
    let marker = b"ArcticFox";
    bytes[100..100 + marker.len()].copy_from_slice(marker);
    let defs = vec![FirmwareDefinition {
        id: "arcticfox".into(),
        name: "ArcticFox".into(),
        marker: marker.to_vec(),
        image_table_1: 0..0,
        image_table_2: 0..0,
        string_table_1: 0..0,
        string_table_2: 0..0,
        char_width: 1,
    }];
    let fw = load_firmware_from_bytes(&bytes, &defs).unwrap();
    assert_eq!(fw.definition.name, "ArcticFox");
}

#[test]
fn test_unknown_image_is_not_loaded() {
    // Plaintext without any marker, and no scheme that yields one.
    let bytes = vec![0x11u8; 64];
    let defs = vec![FirmwareDefinition { marker: b"XYZ".to_vec(), ..FirmwareDefinition::default() }];
    assert!(matches!(load_firmware_from_bytes(&bytes, &defs), Err(FirmwareError::UnsupportedEncryption(_))));
    // The Joyetech APROM marker makes it plaintext, but no definition matches.
    let mut img = vec![0u8; 64];
    img[10..24].copy_from_slice(b"Joyetech APROM");
    assert!(matches!(load_firmware_from_bytes(&img, &defs), Err(FirmwareError::DefinitionNotFound)));
}

#[test]
fn test_parse_and_apply_patch() {
    let mut patch = parse_patch(PATCH_XML, "test").unwrap();
    assert_eq!(patch.name, "Test Patch");
    assert_eq!(patch.version, "1.0");
    assert_eq!(patch.author, "Dev");
    assert_eq!(patch.modifications.len(), 3);

    let mut firmware = vec![0u8; 32];
    firmware[0x10] = 0x00;
    firmware[0x11] = 0x01;
    firmware[0x12] = 0x55;

    let mut log = HashMap::new();
    apply_patch(&mut firmware, &mut patch, &mut log).unwrap();

    assert_eq!(firmware[0x10], 0xFF);
    assert_eq!(firmware[0x11], 0xAA);
    assert_eq!(firmware[0x12], 0xBB);

    rollback_patch(&mut firmware, &mut patch, &mut log).unwrap();

    assert_eq!(firmware[0x10], 0x00);
    assert_eq!(firmware[0x11], 0x01);
    assert_eq!(firmware[0x12], 0x55);
    assert!(log.is_empty());
}

#[test]
fn test_incompatible_patch() {
    let mut patch = parse_patch(PATCH_XML, "test").unwrap();
    let mut firmware = vec![0u8; 32];
    firmware[0x10] = 0x42;
    let mut log = HashMap::new();
    assert!(apply_patch(&mut firmware, &mut patch, &mut log).is_err());
}

#[test]
fn test_find_conflicts() {
    let xml_a = r#"<Patch Name="A"><Data>0x10: 0x00 - 0xFF</Data></Patch>"#;
    let xml_b = r#"<Patch Name="B"><Data>0x10: 0x00 - 0xAA</Data></Patch>"#;
    let patch_a = parse_patch(xml_a, "a").unwrap();
    let patch_b = parse_patch(xml_b, "b").unwrap();
    let conflicts = find_conflicts(&[patch_a, patch_b]);
    assert_eq!(conflicts.len(), 1);
    assert_eq!(conflicts[0].2, 0x10);
}

#[test]
fn test_rollback_other_animations() {
    let xml_a = r#"<Patch Name="A"><Data>0x10: * - 0xAA</Data></Patch>"#;
    let xml_b = r#"<Patch Name="B"><Data>0x10: * - 0xBB</Data></Patch>"#;
    let xml_c = r#"<Patch Name="C"><Data>0x20: * - 0xCC</Data></Patch>"#;
    let mut patches = vec![
        parse_patch(xml_a, "anim-a").unwrap(),
        parse_patch(xml_b, "anim-b").unwrap(),
        parse_patch(xml_c, "plain-c").unwrap(),
    ];
    let mut firmware = vec![0u8; 32];
    let mut log = HashMap::new();
    apply_patch(&mut firmware, &mut patches[0], &mut log).unwrap();
    apply_patch(&mut firmware, &mut patches[2], &mut log).unwrap();

    rollback_other_animations(&mut firmware, &mut patches, &mut log, "anim-b");
    assert!(!patches[0].applied, "other animation rolled back");
    assert_eq!(firmware[0x10], 0x00, "hook site restored");
    assert!(patches[2].applied, "non-animation patch untouched");
    assert_eq!(firmware[0x20], 0xCC);

    apply_patch(&mut firmware, &mut patches[1], &mut log).unwrap();
    assert_eq!(firmware[0x10], 0xBB);
    rollback_other_animations(&mut firmware, &mut patches, &mut log, "anim-b");
    assert!(patches[1].applied, "excepted patch survives");
    assert_eq!(firmware[0x10], 0xBB);
}

#[test]
fn test_apply_patch_grows_image_into_cave() {
    let xml = r#"<Patch Name="C"><Data>0x40: * - 0xAB</Data></Patch>"#;
    let mut patch = parse_patch(xml, "c").unwrap();
    let mut firmware = vec![0u8; 0x20];
    let mut log = HashMap::new();
    apply_patch(&mut firmware, &mut patch, &mut log).unwrap();
    assert_eq!(firmware.len(), 0x41);
    assert_eq!(firmware[0x40], 0xAB);
    assert!(firmware[0x20..0x40].iter().all(|b| *b == 0xFF));
    assert_eq!(log[&0x40], 0xFF);
}

#[test]
fn test_patch_description_and_data_lines() {
    let xml = r#"<Patch Name="D" Version="2" Author="Me">
  <Description>
     Shows the clock
  </Description>
  <Data>
    0X20 : 0x1FF - 0x102 ; truncated to bytes
    no colon here
    a:b:c
  </Data>
</Patch>"#;
    let p = parse_patch(xml, "d").unwrap();
    assert_eq!(p.id, "d");
    assert_eq!(p.description, "Shows the clock");
    assert_eq!(p.modifications.len(), 1);
    assert_eq!(p.modifications[0].offset, 0x20);
    assert_eq!(p.modifications[0].original, Some(0xFF));
    assert_eq!(p.modifications[0].patched, 0x02);
    assert!(!p.applied);
}

#[test]
fn test_bad_patch_lines_are_refused() {
    let two_dashes = r#"<Patch><Data>0x10: 1 - 2 - 3</Data></Patch>"#;
    assert!(matches!(parse_patch(two_dashes, "x"), Err(FirmwareError::Xml(_))));
    let bad_offset = r#"<Patch><Data>0xQQ: 1 - 2</Data></Patch>"#;
    assert!(matches!(parse_patch(bad_offset, "x"), Err(FirmwareError::Xml(_))));
}

fn patch_error(data: &str) -> String {
    let xml = format!("<Patch Name=\"P\"><Data>\n{data}\n</Data></Patch>");
    match parse_patch(&xml, "p") {
        Err(FirmwareError::Xml(m)) => m,
        other => panic!("expected an Xml error, got {other:?}"),
    }
}

#[test]
fn test_patch_data_error_messages() {
    assert_eq!(patch_error("0x1G: 0x00 - 0x01"), "bad hex: 1G");
    assert_eq!(patch_error("  0x10: 0x00 0x01  # no dash"), "bad patch line: 0x10: 0x00 0x01");
    assert_eq!(patch_error("0x10: 0x00 - 0xZZ"), "bad hex: ZZ");
    assert_eq!(patch_error("0x10: q - 0x01"), "bad hex: q");
    // Lines without exactly one ':' are skipped, not refused.
    assert!(parse_patch("<Patch><Data>\nno colon here\n</Data></Patch>", "p").unwrap().modifications.is_empty());
}
