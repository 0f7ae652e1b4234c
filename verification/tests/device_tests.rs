use cloudy_af::firmware::definition::FirmwareDefinition;
use cloudy_af::firmware::encryption::EncryptionType;
use cloudy_af::firmware::error::FirmwareError;
use cloudy_af::firmware::flasher::{
    check_image_size, create_command, dataflash_checksum, dataflash_payload, logo_data,
    check_product_id, parse_fw_version, product_id_bytes, product_id_text, stream_length, stream_report, user_data, McuFamily,
    CMD_WRITE_DATA,
};
use cloudy_af::firmware::loader::FirmwareImage;
use cloudy_af::firmware::monitoring::{decode_monitoring_raw, MONITORING_DATA_SIZE};
use cloudy_af::firmware::state::{FirmwareState, OpenFirmware};
use cloudy_af::firmware::stock::{line_for_product, match_build, Line, MatchKind, StockBuild, StockLibrary};
use std::collections::HashMap;

#[test]
fn mcu_family_signature_and_flash_base() {
    assert_eq!(McuFamily::from_vid(0x0416), McuFamily::Nuvoton);
    assert_eq!(McuFamily::from_vid(0x0483), McuFamily::Stm);
    assert_eq!(McuFamily::Nuvoton.hid_signature(), *b"HIDC");
    assert_eq!(McuFamily::Stm.hid_signature(), [0x5C, 0xCA, 0x37, 0x75]);
    assert_eq!(McuFamily::Nuvoton.firmware_start_address(), 0);
    assert_eq!(McuFamily::Stm.firmware_start_address(), 0x0800C000);

    // The 18-byte command packet carries the family signature at bytes
    // 10..14 and the sum of bytes 0..14 as a LE i32 checksum at 14..18.
    let pkt = create_command(CMD_WRITE_DATA, 0x0800C000, 114_688, McuFamily::Stm);
    assert_eq!(pkt[0], CMD_WRITE_DATA);
    assert_eq!(&pkt[2..6], &0x0800C000i32.to_le_bytes());
    assert_eq!(&pkt[10..14], &[0x5C, 0xCA, 0x37, 0x75]);
    let sum: i32 = pkt[..14].iter().map(|b| *b as i32).sum();
    assert_eq!(&pkt[14..18], &sum.to_le_bytes());

    let pkt = create_command(CMD_WRITE_DATA, 0, 114_688, McuFamily::Nuvoton);
    assert_eq!(&pkt[10..14], b"HIDC");
    assert_eq!(&pkt[2..6], &0i32.to_le_bytes());
}

#[test]
fn test_parse_fw_version() {
    let mut df = vec![0u8; 2048];
    df[4 + 256..4 + 260].copy_from_slice(&210103i32.to_le_bytes());
    assert_eq!(parse_fw_version(&df).unwrap(), 210103);
}

#[test]
fn test_short_dataflash_has_no_version() {
    assert!(matches!(parse_fw_version(&[0u8; 263]), Err(FirmwareError::Other(m)) if m == "dataflash too short"));
    assert!(product_id_bytes(&[0u8; 319]).is_none());
}

#[test]
fn test_dataflash_payload_and_checksum() {
    let mut data = vec![0u8; 2044];
    data[0] = 0xFF;
    data[2043] = 0x02;
    assert_eq!(dataflash_checksum(&data), 0x101);
    let p = dataflash_payload(&data);
    assert_eq!(p.len(), 2048);
    assert_eq!(&p[0..4], &0x101u32.to_le_bytes());
    assert_eq!(&p[4..], &data[..]);
}

#[test]
fn test_user_data_sets_pid_and_boot_flag() {
    let mut df = vec![7u8; 2048];
    df[13] = 0;
    let u = user_data(&df, Some(&b"M041"[..]), 1);
    assert_eq!(u.len(), 2044);
    assert_eq!(u[9], 1);
    assert_eq!(&u[312..316], b"M041");
    assert_eq!(u[0], 7);
    let v = user_data(&df, None, 0);
    assert_eq!(v[9], 0);
    assert_eq!(&v[312..316], &[7, 7, 7, 7]);
}

#[test]
fn test_image_size_and_stream_padding() {
    assert!(check_image_size(&vec![0u8; 1023]).is_err());
    assert!(check_image_size(&vec![0u8; 1024]).is_ok());
    assert!(check_image_size(&vec![0u8; 128 * 1024 + 1]).is_err());
    assert_eq!(stream_length(1000).unwrap(), 1024);
    assert_eq!(stream_length(1024).unwrap(), 1024);
    assert!(stream_length(128 * 1024 + 1).is_err());
    match check_image_size(&vec![0u8; 1023]) {
        Err(FirmwareError::Other(m)) => assert_eq!(m, "implausible firmware image size: 1023 bytes"),
        other => panic!("unexpected {other:?}"),
    }
    match stream_length(128 * 1024 + 1) {
        Err(FirmwareError::Other(m)) => assert_eq!(m, "firmware image too large after row padding: 131584 bytes"),
        other => panic!("unexpected {other:?}"),
    }
    match decode_monitoring_raw(&[0u8; 3]) {
        Err(FirmwareError::Other(m)) => assert_eq!(m, "monitoring payload too short: 3 bytes"),
        other => panic!("unexpected {other:?}"),
    }
    let image = vec![0x11u8; 100];
    let r = stream_report(&image, 64);
    assert_eq!(r.len(), 65);
    assert_eq!(r[0], 0);
    assert_eq!(r[1], 0x11);
    assert_eq!(r[36], 0x11);
    assert_eq!(r[37], 0xFF);
}

#[test]
fn test_logo_blocks() {
    let logo = logo_data(&[1, 2], &[3]).unwrap();
    assert_eq!(logo.len(), 1024);
    assert_eq!(logo[0], 3);
    assert_eq!(logo[1], 0);
    assert_eq!(&logo[512..514], &[1, 2]);
    assert!(logo_data(&[0u8; 513], &[]).is_err());
}

fn library() -> StockLibrary {
    StockLibrary {
        lines: vec![
            Line { name: "pico".into(), product_ids: vec!["M041".into(), "M065".into()] },
            Line { name: "rim".into(), product_ids: vec!["J070".into()] },
        ],
        builds: vec![
            StockBuild { id: "af_170222".into(), file: "a.bin".into(), line: "pico".into(), fw_versions: vec![100] },
            StockBuild { id: "af_190602".into(), file: "b.bin".into(), line: "pico".into(), fw_versions: vec![110] },
            StockBuild { id: "af_180913".into(), file: "c.bin".into(), line: "pico".into(), fw_versions: vec![105] },
        ],
    }
}

#[test]
fn test_stock_matching() {
    let lib = library();
    assert_eq!(line_for_product(&lib, "M065").unwrap().name, "pico");
    assert!(line_for_product(&lib, "XXXX").is_none());
    let (k, b) = match_build(&lib, "M041", 105);
    assert_eq!(k, MatchKind::ExactVersion);
    assert_eq!(b.unwrap().id, "af_180913");
    let (k, b) = match_build(&lib, "M041", 999);
    assert_eq!(k, MatchKind::LineOnly);
    assert_eq!(b.unwrap().id, "af_190602");
    let (k, b) = match_build(&lib, "J070", 1);
    assert_eq!(k, MatchKind::LineOnly);
    assert!(b.is_none());
    let (k, b) = match_build(&lib, "ZZZZ", 1);
    assert_eq!(k, MatchKind::NoLine);
    assert!(b.is_none());
}

fn open(n: u8) -> OpenFirmware {
    OpenFirmware {
        image: FirmwareImage { definition: FirmwareDefinition::default(), encryption: EncryptionType::Plaintext, bytes: vec![n] },
        rollback_log: HashMap::new(),
        patches: Vec::new(),
    }
}

#[test]
fn test_state_insert_get_remove() {
    let mut s = FirmwareState::new();
    assert!(s.get("a").is_none());
    s.insert("a".into(), open(1));
    s.insert("b".into(), open(2));
    s.insert("a".into(), open(3));
    assert_eq!(s.get("a").unwrap().image.bytes, vec![3]);
    assert_eq!(s.get("b").unwrap().image.bytes, vec![2]);
    let removed = s.remove("a").unwrap();
    assert_eq!(removed.image.bytes, vec![3]);
    assert!(s.get("a").is_none());
    assert!(s.remove("a").is_none());
    assert_eq!(s.get("b").unwrap().image.bytes, vec![2]);
}

/// The synthetic 64-byte monitoring payload.
fn synthetic_payload() -> Vec<u8> {
    let mut buf = vec![0u8; MONITORING_DATA_SIZE];
    buf[0..4].copy_from_slice(&1_234_567u32.to_le_bytes());
    buf[4] = 1;
    buf[5] = 0;
    buf[6] = 1;
    buf[7] = 145;
    buf[8] = 150;
    buf[11..13].copy_from_slice(&750u16.to_le_bytes());
    buf[13..15].copy_from_slice(&220u16.to_le_bytes());
    buf[15..17].copy_from_slice(&210u16.to_le_bytes());
    buf[17..19].copy_from_slice(&420u16.to_le_bytes());
    buf[19..21].copy_from_slice(&150u16.to_le_bytes());
    buf[21..23].copy_from_slice(&250u16.to_le_bytes());
    buf[23..25].copy_from_slice(&235u16.to_le_bytes());
    buf[25] = 32;
    buf
}

#[test]
fn test_decode_raw_golden_values() {
    let m = decode_monitoring_raw(&synthetic_payload()).unwrap();
    assert_eq!(m.timestamp, 1_234_567);
    assert!(m.is_firing);
    assert!(!m.is_charging);
    assert!(m.is_celsius);
    assert_eq!(m.battery, [145, 150, 0, 0]);
    assert_eq!(m.power_set, 750);
    assert_eq!(m.temperature_set, 220);
    assert_eq!(m.temperature, 210);
    assert_eq!(m.output_voltage, 420);
    assert_eq!(m.output_current, 150);
    assert_eq!(m.resistance, 250);
    assert_eq!(m.real_resistance, 235);
    assert_eq!(m.board_temperature, 32);
}

#[test]
fn test_decode_short_buffer_rejected() {
    let buf = vec![0u8; MONITORING_DATA_SIZE - 1];
    assert!(decode_monitoring_raw(&buf).is_err());
}

#[test]
fn test_repaired_frame_reads_back() {
    let mut df = vec![0u8; 2048];
    for (i, b) in df.iter_mut().enumerate() {
        *b = (i * 7) as u8;
    }
    let data = user_data(&df, Some(&b"E052"[..]), 1);
    let frame = dataflash_payload(&data);
    assert_eq!(frame.len(), 2048);
    assert_eq!(product_id_bytes(&frame), Some(b"E052".to_vec()));
    assert_eq!(cloudy_af::firmware::flasher::boot_flag(&frame), Some(1));
    for j in 4..2048 {
        if j != 13 && !(316..320).contains(&j) {
            assert_eq!(frame[j], df[j], "byte {j}");
        }
    }
}

#[test]
fn test_product_id_text_and_guard() {
    let mut df = vec![0u8; 2048];
    df[316..320].copy_from_slice(b"E052");
    assert_eq!(product_id_text(&df).unwrap(), "E052");
    assert!(check_product_id(&df, "E052").is_ok());
    match check_product_id(&df, "M041") {
        Err(FirmwareError::Other(m)) => assert_eq!(m, "refusing to flash: connected device is E052, firmware is for M041"),
        other => panic!("unexpected {other:?}"),
    }
    assert!(matches!(product_id_text(&df[..300]), Err(FirmwareError::Other(m)) if m == "dataflash too short"));
    assert!(matches!(check_product_id(&df[..300], "E052"), Err(FirmwareError::Other(m)) if m == "dataflash too short"));
    df[316] = 0xFF;
    assert!(matches!(product_id_text(&df), Err(FirmwareError::Other(m)) if m == "invalid Product ID"));
    match check_product_id(&df, "E052") {
        Err(FirmwareError::Other(m)) => assert_eq!(m, "refusing to flash: connected device is \u{FFFD}052, firmware is for E052"),
        other => panic!("unexpected {other:?}"),
    }
}
