
use cloudy_af::emu::bus::{Bus, Fmc, WriteRecord, FLASH_BASE, RAM_BASE};
use cloudy_af::emu::error::EmuError;

fn bus() -> Bus {
    let mut b = Bus::new(vec![0u8; 0x1000], 0x1000);
    b.allow_region(RAM_BASE + 0x100..RAM_BASE + 0x200);
    b
}

#[test]
fn test_ram_read_write_roundtrip() {
    let mut b = bus();
    b.write_u32(RAM_BASE + 0x100, 0xDEAD_BEEF).unwrap();
    assert_eq!(b.read_u32(RAM_BASE + 0x100).unwrap(), 0xDEAD_BEEF);
    assert!(b.acl_violations.is_empty());
    assert_eq!(b.write_log.len(), 1);
}

#[test]
fn test_acl_violation_recorded_but_applied() {
    let mut b = bus();
    b.write_u8(RAM_BASE + 0x900, 0xAA).unwrap(); // outside allow region
    assert_eq!(b.read_u8(RAM_BASE + 0x900).unwrap(), 0xAA);
    assert_eq!(b.acl_violations.len(), 1);
    assert_eq!(b.acl_violations[0].addr, RAM_BASE + 0x900);
}

#[test]
fn test_flash_store_is_violation_not_applied() {
    let mut b = bus();
    b.write_u32(FLASH_BASE + 0x40, 0xFFFF_FFFF).unwrap();
    assert_eq!(b.read_u32(FLASH_BASE + 0x40).unwrap(), 0);
    assert_eq!(b.acl_violations.len(), 1);
}

#[test]
fn test_peripheral_stub_read_and_dropped_write() {
    let mut b = bus();
    b.set_stub(0x4000_0004, 0x1);
    assert_eq!(b.read_u32(0x4000_0004).unwrap(), 0x1);
    assert_eq!(b.read_u32(0x4000_0008).unwrap(), 0);
    b.write_u32(0x4000_0004, 0xFF).unwrap();
    assert_eq!(b.dropped_writes.len(), 1);
    assert_eq!(b.read_u32(0x4000_0004).unwrap(), 0x1); // unchanged
}

#[test]
fn test_unmapped_and_unaligned() {
    // ARMv7-M permits unaligned LDR/STR (the af boot loads a word at
    // 0x20000161), so unaligned accesses succeed; only unmapped space
    // faults.
    let mut b = bus();
    assert!(matches!(b.read_u32(0x8000_0000), Err(EmuError::Unmapped { .. })));
    b.write_u32(RAM_BASE + 0x100, 0x1122_3344).unwrap();
    assert_eq!(b.read_u32(RAM_BASE + 0x101).unwrap(), 0x0011_2233);
    assert_eq!(b.read_u16(RAM_BASE + 0x101).unwrap(), 0x2233);
}

#[test]
fn test_endianness() {
    let mut b = bus();
    b.write_u32(RAM_BASE + 0x100, 0x0102_0304).unwrap();
    assert_eq!(b.read_u8(RAM_BASE + 0x100).unwrap(), 0x04);
    assert_eq!(b.read_u16(RAM_BASE + 0x102).unwrap(), 0x0102);
}

#[test]
fn test_read_straddling_ram_end_is_unmapped_not_panic() {
    // RAM size not a multiple of 4 so an aligned u32 read can straddle the end.
    let b = Bus::new(vec![0u8; 0x1000], 0x1002);
    assert!(matches!(
        b.read_u32(RAM_BASE + 0x1000), // covers 0x1000..0x1004, RAM ends at 0x1002
        Err(EmuError::Unmapped { .. })
    ));
}

#[test]
fn test_write_straddling_flash_end_is_unmapped_not_panic() {
    // Flash size not a multiple of 4 so an aligned u32 write can straddle the end.
    let mut b = Bus::new(vec![0u8; 0x1002], 0x1000);
    assert!(matches!(
        b.write_u32(FLASH_BASE + 0x1000, 0xFFFF_FFFF), // covers 0x1000..0x1004
        Err(EmuError::Unmapped { .. })
    ));
    assert!(b.acl_violations.is_empty()); // error, not a recorded violation
}

#[test]
fn test_write_straddling_allow_region_end_is_violation_but_applied() {
    let mut b = bus();
    b.allow_region(RAM_BASE + 0x400..RAM_BASE + 0x402); // end not 4-aligned
    b.write_u16(RAM_BASE + 0x400, 0xBEEF).unwrap(); // 0x400..0x402 fits the region
    assert!(b.acl_violations.is_empty());
    b.write_u32(RAM_BASE + 0x400, 0xAABB_CCDD).unwrap(); // 0x400..0x404 straddles region end
    assert_eq!(b.read_u32(RAM_BASE + 0x400).unwrap(), 0xAABB_CCDD); // applied
    assert_eq!(b.acl_violations.len(), 1);
    assert_eq!(b.acl_violations[0].addr, RAM_BASE + 0x400);
    assert_eq!(b.write_log.len(), 2);
}
