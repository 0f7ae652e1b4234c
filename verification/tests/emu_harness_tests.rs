use cloudy_af::emu::bus::RAM_BASE;
use cloudy_af::emu::error::EmuError;
use cloudy_af::emu::harness::{unpack_block1, AddrRange, Descriptor, DisplayBuffer, Frame, Harness, parse_u32_text};
use cloudy_af::firmware::patch::{apply_patch, Patch, PatchModification};
use std::collections::HashMap;

const DISPLAY_BUFFER: u32 = RAM_BASE + 0x1000;
const PHASE_GLOBAL: u32 = RAM_BASE;

/// The test descriptor: render entry `entry`, the 64x128 display buffer at
/// 0x20001000..0x20001400, RAM globals 0x20000000..0x20000100, 32 KiB RAM.
fn desc(entry: u32) -> Descriptor {
    Descriptor {
        build: "synthetic".into(),
        render_entry: entry,
        display_buffer: DisplayBuffer { range: AddrRange { start: 0x2000_1000, end: 0x2000_1400 }, width: 64, height: 128 },
        ram_globals: vec![AddrRange { start: 0x2000_0000, end: 0x2000_0100 }],
        ram_size: 32768,
        args: [0, 0, 0, 0],
        stubs: Vec::new(),
    }
}

/// Image: render function at 0x80 writes 0xFF to display_buffer[0] and returns.
fn harness_image() -> Vec<u8> {
    let mut img = vec![0u8; 0x100];
    let code: [u16; 5] = [
        0x4902, // 0x80: ldr r1, [pc, #8]  ; base=align(0x84,4)=0x84, addr=0x8C -> &display_buffer
        0x20FF, // 0x82: movs r0, #0xFF
        0x7008, // 0x84: strb r0, [r1, #0]
        0x4770, // 0x86: bx lr
        0x46C0, // 0x88: nop (alignment pad)
    ];
    for (i, hw) in code.iter().enumerate() {
        img[0x80 + i * 2..0x80 + i * 2 + 2].copy_from_slice(&hw.to_le_bytes());
    }
    img[0x8C..0x90].copy_from_slice(&(RAM_BASE + 0x1000).to_le_bytes());
    img
}

#[test]
fn test_run_frame_writes_pixel() {
    let mut h = Harness::new(&harness_image(), desc(0x80));
    let frame = h.run_frame(100_000).unwrap();
    assert_eq!(frame.pixels[0], 1);
    assert_eq!(frame.pixels[7], 1);
    assert_eq!(frame.pixels[8], 0);
}

#[test]
fn test_frames_differ() {
    let mut a = Frame { width: 2, height: 2, pixels: vec![0; 4] };
    let b = a.clone();
    assert!(!Harness::frames_differ(&a, &b));
    a.pixels[3] = 1;
    assert!(Harness::frames_differ(&a, &b));
}

#[test]
fn test_run_frame_catches_acl_violation() {
    let mut img = harness_image();
    img[0x8C..0x90].copy_from_slice(&RAM_BASE.to_le_bytes());
    let mut d = desc(0x80);
    d.ram_globals.clear();
    let mut h = Harness::new(&img, d);
    let err = h.run_frame(100_000).unwrap_err();
    assert!(matches!(err, EmuError::Descriptor(_)));
}

#[test]
fn test_run_frame_catches_stack_canary_corruption() {
    let stack_bottom = RAM_BASE + 0x8000 - 0x2000;
    let mut img = vec![0u8; 0x100];
    let code: [u16; 4] = [
        0x4901, // 0x80: ldr r1, [pc, #4]  ; base=align(0x84,4)=0x84, +4=0x88 -> &stack_bottom
        0x2055, // 0x82: movs r0, #0x55
        0x6008, // 0x84: str r0, [r1, #0]
        0x4770, // 0x86: bx lr
    ];
    for (i, hw) in code.iter().enumerate() {
        img[0x80 + i * 2..0x80 + i * 2 + 2].copy_from_slice(&hw.to_le_bytes());
    }
    img[0x88..0x8C].copy_from_slice(&stack_bottom.to_le_bytes());
    let mut h = Harness::new(&img, desc(0x80));
    let err = h.run_frame(100_000).unwrap_err();
    match err {
        EmuError::Descriptor(msg) => assert!(msg.contains("canary"), "unexpected: {msg}"),
        other => panic!("expected Descriptor error, got {other:?}"),
    }
}

fn store_word_image(target: u32) -> Vec<u8> {
    let mut img = vec![0u8; 0x100];
    let code: [u16; 4] = [0x4901, 0x2055, 0x6008, 0x4770]; // ldr r1, =target; movs r0, #0x55; str r0, [r1]; bx lr
    for (i, hw) in code.iter().enumerate() {
        img[0x80 + i * 2..0x80 + i * 2 + 2].copy_from_slice(&hw.to_le_bytes());
    }
    img[0x88..0x8C].copy_from_slice(&target.to_le_bytes());
    img
}

#[test]
fn test_run_frame_fault_messages() {
    // The canary message names the value found there, then dumps the core.
    let stack_bottom = RAM_BASE + 0x8000 - 0x2000;
    let mut h = Harness::new(&store_word_image(stack_bottom), desc(0x80));
    match h.run_frame(100_000).unwrap_err() {
        EmuError::Descriptor(msg) => assert!(
            msg.starts_with("stack canary corrupted (0x00000055) \u{2014} stack usage reached the region bottom\nr0  = 0x00000055\n"),
            "unexpected: {msg}"
        ),
        other => panic!("expected Descriptor error, got {other:?}"),
    }
    // A store outside the allow-list is listed as the bus recorded it.
    let mut d = desc(0x80);
    d.ram_globals.clear();
    let mut h = Harness::new(&store_word_image(RAM_BASE), d);
    match h.run_frame(100_000).unwrap_err() {
        EmuError::Descriptor(msg) => assert!(
            msg.starts_with("ACL violations: [WriteRecord { addr: 536870912, value: 85, size: 4 }]\nr0  = "),
            "unexpected: {msg}"
        ),
        other => panic!("expected Descriptor error, got {other:?}"),
    }
}

#[test]
fn test_run_frame_catches_stack_pointer_underflow() {
    let mut img = vec![0u8; 0x100];
    for i in 0..16 {
        img[0x80 + i * 2..0x82 + i * 2].copy_from_slice(&0xB0FFu16.to_le_bytes()); // sub sp, #508
    }
    img[0xA0..0xA2].copy_from_slice(&0x4770u16.to_le_bytes()); // bx lr
    let mut h = Harness::new(&img, desc(0x80));
    let err = h.run_frame(100_000).unwrap_err();
    match err {
        EmuError::Descriptor(msg) => assert!(msg.contains("stack pointer"), "unexpected: {msg}"),
        other => panic!("expected Descriptor error, got {other:?}"),
    }
}

#[test]
fn test_unpack_block1_layout() {
    let mut buf = vec![0u8; 64 * 128 / 8];
    buf[0] = 0b1000_0010;
    buf[8] = 0x01;
    let f = unpack_block1(&buf, 64, 128);
    assert_eq!(f.pixels[0], 1);
    assert_eq!(f.pixels[6], 1);
    assert_eq!(f.pixels[64 + 7], 1);
    assert_eq!(f.pixels[1], 0);
}

#[test]
fn test_descriptor_addresses_hex_or_decimal() {
    assert_eq!(parse_u32_text("0x20001000"), Some(0x2000_1000));
    assert_eq!(parse_u32_text("0X1f"), Some(0x1F));
    assert_eq!(parse_u32_text("536879104"), Some(536879104));
    assert_eq!(parse_u32_text("4294967296"), None);
    assert_eq!(parse_u32_text(" 1"), None);
    assert_eq!(parse_u32_text("0x"), None);
}

/// Build an unconditional-branch halfword: `b to` assembled at `from`.
/// pc = from + 4 + off, off = imm11 * 2 (sign-extended).
fn b_off(from: u32, to: u32) -> u16 {
    let off = (to as i64 - (from as i64 + 4)) / 2;
    0xE000 | ((off as i32 as u16) & 0x7FF)
}

/// Synthetic image.
///
/// Render function at 0x00: push {r4, lr}; zero the first 16 bytes of the
/// display buffer (strb/adds/cmp/bne loop); bl helper at 0x40; hook site at
/// 0x20 (two nops); store the returned pixel byte into display_buffer[0];
/// pop {r4, pc}. Literal pool (display buffer addr) at 0x2C.
///
/// Helper at 0x40: increments the phase global at RAM_BASE, returns
/// pixel = phase & 1 in r0. Literal pool (phase global addr) at 0x50.
///
/// Code cave at 0x60: 32 bytes of zeros, filled by the hook patch.
fn synthetic_image() -> Vec<u8> {
    let mut img = vec![0u8; 0x100];
    let code: [(u32, u16); 30] = [
        (0x00, 0xB510), // push {r4, lr}
        (0x02, 0x490A), // ldr r1, [pc, #40] ; base=align(0x06,4)=0x04, +0x28=0x2C -> &display_buffer
        (0x04, 0x2200), // movs r2, #0      ; loop counter
        (0x06, 0x2300), // movs r3, #0      ; zero value
        (0x08, 0x548B), // strb r3, [r1, r2] ; loop: display_buffer[r2] = 0
        (0x0A, 0x3201), // adds r2, #1
        (0x0C, 0x2A10), // cmp r2, #16
        (0x0E, 0xD1FB), // bne 0x08         ; off = 0x08 - (0x0E+4) = -10 -> imm8 0xFB
        (0x10, 0xF000), // bl 0x40 (hw1)    ; S=0, imm10=0
        (0x12, 0xF816), // bl 0x40 (hw2)    ; J1=J2=1, imm11=22 -> off=44: 0x10+4+44=0x40
        (0x14, 0x4905), // ldr r1, [pc, #20] ; base=align(0x18,4)=0x18, +0x14=0x2C (helper clobbers r1)
        (0x16, 0x46C0), // nop
        (0x18, 0x46C0), // nop
        (0x1A, 0x46C0), // nop
        (0x1C, 0x46C0), // nop
        (0x1E, 0x46C0), // nop
        (0x20, 0x46C0), // nop  <- hook site (patch writes `b 0x60` here)
        (0x22, 0x46C0), // nop  <- hook site (patch writes filler nop here)
        (0x24, 0x7008), // strb r0, [r1, #0] ; display_buffer[0] = pixel
        (0x26, 0xBD10), // pop {r4, pc}
        (0x28, 0x46C0), // nop (pad)
        (0x2A, 0x46C0), // nop (pad)
        // 0x2C: literal pool, filled below
        (0x40, 0x4803), // helper: ldr r0, [pc, #12] ; base=align(0x44,4)=0x44, +0xC=0x50 -> &phase
        (0x42, 0x6801), // ldr r1, [r0, #0]
        (0x44, 0x3101), // adds r1, #1
        (0x46, 0x6001), // str r1, [r0, #0]  ; phase++
        (0x48, 0x2001), // movs r0, #1
        (0x4A, 0x4008), // ands r0, r1       ; pixel = phase & 1
        (0x4C, 0x4770), // bx lr
        (0x4E, 0x46C0), // nop (pad)
        // 0x50: literal pool, filled below
    ];
    for (off, hw) in code {
        img[off as usize..off as usize + 2].copy_from_slice(&hw.to_le_bytes());
    }
    img[0x2C..0x30].copy_from_slice(&DISPLAY_BUFFER.to_le_bytes());
    img[0x50..0x54].copy_from_slice(&PHASE_GLOBAL.to_le_bytes());
    img
}

/// Hook patch: at 0x20 branch into the code cave at 0x60 (plus a filler nop);
/// in the cave, store 0xFF into display_buffer byte 15 and branch back to 0x24.
/// `display_addr` feeds the cave's literal pool entry at 0x6C — pass a bad
/// address to simulate a buggy patch.
fn hook_patch(display_addr: u32) -> Patch {
    let mut mods = Vec::new();
    let mut push = |addr: u32, hw: u16| {
        let b = hw.to_le_bytes();
        mods.push(PatchModification { offset: addr as usize, original: None, patched: b[0] });
        mods.push(PatchModification { offset: addr as usize + 1, original: None, patched: b[1] });
    };
    push(0x20, b_off(0x20, 0x60)); // hook: branch into cave
    push(0x22, 0x46C0); // nop filler
    push(0x60, 0x20FF); // movs r0, #0xFF
    push(0x62, 0x4902); // ldr r1, [pc, #8] ; base=align(0x66,4)=0x64, +8=0x6C -> literal
    push(0x64, 0x73C8); // strb r0, [r1, #15] ; last byte of the first 16
    push(0x66, b_off(0x66, 0x24)); // branch back after the hook site
    push(0x68, 0x46C0); // nop (keeps pc-relative math simple)
    for (i, b) in display_addr.to_le_bytes().iter().enumerate() {
        mods.push(PatchModification { offset: 0x6C + i, original: None, patched: *b });
    }
    Patch { id: "anim-hook".into(), name: "anim".into(), modifications: mods, ..Default::default() }
}


#[test]
fn test_hooked_render_frame() {
    let mut img = synthetic_image();
    let mut patch = hook_patch(DISPLAY_BUFFER);
    let mut log = HashMap::new();
    apply_patch(&mut img, &mut patch, &mut log).unwrap();
    assert!(patch.applied);

    let mut h = Harness::new(&img, desc(0));
    let frame = h.run_frame(100_000).expect("hooked render must not fault");
    for x in 56..64 {
        assert_eq!(frame.pixels[64 + x], 1, "pixel ({x}, 1) should be on");
    }
    assert_eq!(frame.pixels[16], 0, "pixel (16, 0) untouched");
}

#[test]
fn test_bad_patch_acl_violation() {
    let mut img = synthetic_image();
    let mut patch = hook_patch(RAM_BASE + 0x0800);
    let mut log = HashMap::new();
    apply_patch(&mut img, &mut patch, &mut log).unwrap();

    let mut h = Harness::new(&img, desc(0));
    let err = h.run_frame(100_000).unwrap_err();
    assert!(
        matches!(err, EmuError::Descriptor(ref msg) if msg.contains("ACL violations")),
        "expected ACL violation error, got: {err:?}"
    );
}

#[test]
fn test_two_frames_differ_via_phase() {
    let mut h = Harness::new(&synthetic_image(), desc(0));
    let f1 = h.run_frame(100_000).expect("frame 1 must not fault");
    let f2 = h.run_frame(100_000).expect("frame 2 must not fault");
    assert_eq!(f1.pixels[7], 1);
    assert_eq!(f2.pixels[7], 0);
    assert!(Harness::frames_differ(&f1, &f2));
}

const COMBINED_IMAGE_SIZE: usize = 0x1F800;
const DATACFLASH_OFFSET: usize = 0x1F000;
const DATACFLASH_SIZE: usize = 2048;
const FIRMWARE_SIZE: usize = 0x1C7EC; // af_190602.dec.bin length

fn make_combined_image(firmware: &[u8], dataflash: &[u8; DATACFLASH_SIZE]) -> Vec<u8> {
    assert!(
        firmware.len() <= FIRMWARE_SIZE,
        "firmware too large for combined image: {} > {}",
        firmware.len(),
        FIRMWARE_SIZE
    );
    let mut img = vec![0xFFu8; COMBINED_IMAGE_SIZE];
    img[..firmware.len()].copy_from_slice(firmware);
    img[DATACFLASH_OFFSET..DATACFLASH_OFFSET + DATACFLASH_SIZE].copy_from_slice(dataflash);
    img
}

/// Build a 2048-byte dataflash with the given 4-byte product ID at offset 316
/// (DF offset 316 = MCU address 0x1F13C) and a sane default for the rest:
/// boot flag 0 (boot into APROM / normal runtime), fw version 110 at offset 256
/// All other offsets are zero. Offsets are dataflash-local (0..2048); the caller
/// maps them into the combined image at 0x1F000 + offset.
fn make_dataflash(pid: &[u8; 4]) -> [u8; DATACFLASH_SIZE] {
    let mut df = [0u8; DATACFLASH_SIZE];
    // fw version 110 at dataflash offset 256 (LE32)
    df[256..260].copy_from_slice(&110u32.to_le_bytes());
    // boot flag 0
    df[9] = 0;
    // PID at offset 316
    df[316..320].copy_from_slice(pid);
    df
}

#[test]
fn test_combined_image_pins_pid_at_expected_offset() {
    let fw = vec![0u8; FIRMWARE_SIZE];
    let pid = b"M041";
    let df = make_dataflash(pid);
    let img = make_combined_image(&fw, &df);
    assert_eq!(&img[0x1F13C..0x1F140], pid, "PID not at dataflash offset 316 in combined image");
    // dataflash byte 0 lives at img[0x1F000] (df[0] is 0 in this layout —
    // the PID is at offset 316, checked above); verify the mapping with the
    // fw-version word at dataflash offset 256 = img[0x1F100].
    assert_eq!(
        &img[0x1F000 + 256..0x1F000 + 260],
        &110u32.to_le_bytes(),
        "fw version not at dataflash offset 256 in combined image"
    );
    // APROM tail padding is 0xFF
    assert_eq!(
        img[FIRMWARE_SIZE..DATACFLASH_OFFSET],
        vec![0xFFu8; DATACFLASH_OFFSET - FIRMWARE_SIZE],
        "APROM tail / gap not padded with 0xFF"
    );
}
