use cloudy_af::firmware::definition::FirmwareDefinition;
use cloudy_af::firmware::resources::respack::{apply_respack, parse_respack, ResourcePack, ResourcePackImage};
use cloudy_af::firmware::resources::{
    parse_string_table, read_image_pixels, record_len, unpack_1bpp, write_image, FwString, ImageSlot, BLOCK1, BLOCK2,
};
use cloudy_af::firmware::error::FirmwareError;

#[test]
fn test_encode_decode_identity_both_packings() {
    for block in [BLOCK1, BLOCK2] {
        for (w, h) in [(6usize, 8usize), (7usize, 5usize), (9usize, 3usize)] {
            let data_offset = 64usize;
            let slot = ImageSlot { index: 1, reference_offset: 0, data_offset, width: w as u8, height: h as u8, block };
            let mut bytes = vec![0u8; data_offset + 2 + record_len(block, w, h) + 16];
            let pixels: Vec<bool> =
                (0..h).flat_map(|y| (0..w).map(move |x| (x + y) % 3 != 0 || x == 0)).collect();
            write_image(&mut bytes, &[slot], 1, w, h, &pixels).unwrap();
            let read = read_image_pixels(&bytes, &slot).unwrap();
            assert_eq!(read, pixels, "roundtrip failed for block {block} {w}x{h}");
        }
    }
}

#[test]
fn test_oversized_write_image_rejected() {
    let block = BLOCK1;
    let len = record_len(block, 6, 8);
    let s1 = ImageSlot { index: 1, reference_offset: 0, data_offset: 16, width: 6, height: 8, block };
    let s2 = ImageSlot { index: 2, reference_offset: 0, data_offset: 16 + 2 + len, width: 6, height: 8, block };
    let mut bytes = vec![0u8; s2.data_offset + 2 + len];
    let zero: Vec<bool> = vec![false; 6 * 8];
    write_image(&mut bytes, &[s1, s2], 1, 6, 8, &zero).unwrap();

    let bigger: Vec<bool> = vec![true; 6 * 16];
    let r = write_image(&mut bytes, &[s1, s2], 1, 6, 16, &bigger);
    assert!(r.is_err(), "growing a record into the next slot must be rejected");
}

fn other_message<T: std::fmt::Debug>(r: Result<T, FirmwareError>) -> String {
    match r {
        Err(FirmwareError::Other(m)) => m,
        other => panic!("expected an Other error, got {other:?}"),
    }
}

#[test]
fn test_image_error_messages() {
    let block = BLOCK1;
    let len = record_len(block, 6, 8);
    let s1 = ImageSlot { index: 1, reference_offset: 0, data_offset: 16, width: 6, height: 8, block };
    let s2 = ImageSlot { index: 2, reference_offset: 0, data_offset: 16 + 2 + len, width: 6, height: 8, block };
    let mut bytes = vec![0u8; s2.data_offset + 2 + len];
    let before = bytes.clone();
    assert_eq!(other_message(write_image(&mut bytes, &[s1, s2], 9, 6, 8, &[false; 48])), "image slot 9 not found");
    assert_eq!(
        other_message(write_image(&mut bytes, &[s1, s2], 1, 6, 8, &[false; 5])),
        "image slot 1: expected 48 pixels for 6x8, got 5"
    );
    assert_eq!(
        other_message(write_image(&mut bytes, &[s1, s2], 1, 6, 16, &[true; 96])),
        "image slot 1: new 6x16 record needs 14 bytes at 0x10 but that would clobber the next record at 0x18 (refusing, unlike NFE's silent overwrite)"
    );
    assert_eq!(bytes, before);
    let short = ImageSlot { index: 3, reference_offset: 0, data_offset: 10, width: 6, height: 8, block };
    assert_eq!(
        other_message(read_image_pixels(&[0u8; 12], &short)),
        "image slot 3 record out of bounds (12 + 6 > 12)"
    );
    assert_eq!(other_message(unpack_1bpp(&[0u8], 9)), "need 9 bits but the payload has only 1 bytes");
}

#[test]
fn test_parse_respack_inline_sample() {
    let body = r#"<?xml version="1.0" encoding="UTF-8"?>
<ResourcePack Definition="ArcticFox" Name="TestPack" Version="1.0" Author="AF Team">
  <Description>Just a test</Description>
  <Images>
    <Image Index="01" Width="6" Height="8">
      <Data>
XXXXXX
......
XXXXXX
XXXXXX
......
XXXXXX
XXXXXX
......
      </Data>
    </Image>
  </Images>
</ResourcePack>"#;
    let xml = format!("\u{feff}{body}");
    let pack = parse_respack(&xml).unwrap();
    assert_eq!(pack.definition, "ArcticFox");
    assert_eq!(pack.name, "TestPack");
    assert_eq!(pack.version, "1.0");
    assert_eq!(pack.author, "AF Team");
    assert_eq!(pack.description, "Just a test");
    assert_eq!(pack.images.len(), 1);
    let im = &pack.images[0];
    assert_eq!((im.index, im.width, im.height), (1, 6, 8));
    assert_eq!(im.pixels.len(), 48);
    assert!(im.pixels[0]);
    assert!(!im.pixels[6]);
    assert!(im.pixels[12]);
}

#[test]
fn test_respack_rows_and_errors() {
    // Short rows and missing rows stay clear; columns past the width are not read.
    let xml = r#"<ResourcePack><Image Index="1A" Width=" 3 " Height="2"><Data>
      1.
    </Data></Image></ResourcePack>"#;
    let pack = parse_respack(xml).unwrap();
    assert_eq!(pack.images[0].index, 0x1A);
    assert_eq!(pack.images[0].pixels, vec![true, false, false, false, false, false]);
    let bad_char = r#"<ResourcePack><Image Index="1" Width="2" Height="1"><Data>X?</Data></Image></ResourcePack>"#;
    assert!(matches!(parse_respack(bad_char), Err(FirmwareError::Xml(_))));
    let bad_width = r#"<ResourcePack><Image Index="1" Width="300" Height="1"></Image></ResourcePack>"#;
    assert!(matches!(parse_respack(bad_width), Err(FirmwareError::Xml(_))));
}

/// An image with a two-slot Block1 table at 0x20 (header pointers at 0 and 4)
/// and an empty Block2 table.
fn table_image() -> (Vec<u8>, FirmwareDefinition) {
    let mut b = vec![0u8; 0x80];
    b[0..4].copy_from_slice(&0x20u32.to_le_bytes());
    b[4..8].copy_from_slice(&0x28u32.to_le_bytes());
    b[0x20..0x24].copy_from_slice(&0x40u32.to_le_bytes());
    b[0x24..0x28].copy_from_slice(&0x50u32.to_le_bytes());
    b[0x40] = 6;
    b[0x41] = 8;
    b[0x50] = 6;
    b[0x51] = 8;
    let def = FirmwareDefinition { image_table_1: 0..4, image_table_2: 0x70..0x74, ..FirmwareDefinition::default() };
    (b, def)
}

#[test]
fn test_apply_respack_pastes_and_skips() {
    let (bytes0, def) = table_image();
    let pack = ResourcePack {
        definition: "ArcticFox".into(),
        name: "Test".into(),
        version: "1".into(),
        author: "a".into(),
        description: String::new(),
        images: vec![
            ResourcePackImage { index: 1, width: 6, height: 8, pixels: vec![true; 48] },
            ResourcePackImage { index: 999, width: 6, height: 8, pixels: vec![false; 48] },
        ],
    };
    let mut bytes = bytes0.clone();
    let (applied, skipped) = apply_respack(&mut bytes, &pack, &def).unwrap();
    assert_eq!((applied, skipped), (1, 1));
    assert_eq!(&bytes[0x40..0x48], &[0x06, 0x08, 0xff, 0xff, 0xff, 0xff, 0xff, 0xff]);
    for i in 0..bytes.len() {
        if !(0x40..0x48).contains(&i) {
            assert_eq!(bytes[i], bytes0[i], "byte {i} outside the target record must be unchanged");
        }
    }
}

fn string_table_image(to: u32, body: &[u8]) -> Vec<u8> {
    let mut bytes = vec![0u8; 64];
    bytes[0..4].copy_from_slice(&16u32.to_le_bytes());
    bytes[4..8].copy_from_slice(&(to + 4).to_le_bytes());
    bytes[16..16 + body.len()].copy_from_slice(body);
    bytes
}

fn fw(index: usize, data_offset: usize, byte_length: usize, two_byte: bool) -> FwString {
    FwString { index, data_offset, byte_length, two_byte }
}

#[test]
fn test_string_table_tiles_to_the_end() {
    // Single-byte entries end after a NUL followed by a non-NUL; the last
    // absorbs the trailing padding.
    let b = string_table_image(20, &[0x41, 0, 0x42, 0, 0]);
    assert_eq!(parse_string_table(&b, 0..4, 1).unwrap(), vec![fw(1, 16, 2, false), fw(2, 18, 3, false)]);
    // Two-byte entries end after a NUL unit followed by a non-NUL unit.
    let b = string_table_image(23, &[0x41, 0, 0, 0, 0x42, 0, 0x43, 0]);
    assert_eq!(parse_string_table(&b, 0..4, 2).unwrap(), vec![fw(1, 16, 4, true), fw(2, 20, 4, true)]);
    let b = string_table_image(19, &[0x41, 0, 0, 0]);
    assert_eq!(parse_string_table(&b, 0..4, 2).unwrap(), vec![fw(1, 16, 4, true)]);
    // No table when a pointer is zero.
    let b = string_table_image(0, &[]);
    assert!(parse_string_table(&b, 0..4, 1).unwrap().is_empty());
}
