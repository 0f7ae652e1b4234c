use cloudy_af::anim::assembler::{bw_pair, Asm, AsmError};
use cloudy_af::emu::bus::Bus;
use cloudy_af::emu::cpu::Cpu;
use cloudy_af::emu::thumb::{decode32, Instr, Thumb2};

#[test]
fn test_golden_movs() {
    // movs r0, #0xFF = 0x20FF; the code is padded to a 4-byte boundary with
    // a nop so the literal pool stays word-aligned.
    let mut a = Asm::new(0x60);
    a.movs(0, 0xFF);
    assert_eq!(a.finish().unwrap(), vec![0xFF, 0x20, 0xC0, 0x46]);
}

#[test]
fn test_golden_bcond_backward() {
    // bne back to "loop": adds(2,1) = 0x3201, cmp(2,16) = 0x2A10, then
    // bcond at offset 4 -> pc 8, off = (0-8)/2 = -4 -> imm8 0xFC.
    let mut a = Asm::new(0x08);
    a.label("loop");
    a.adds(2, 1);
    a.cmp(2, 16);
    a.bcond(1, "loop");
    assert_eq!(a.finish().unwrap(), vec![0x01, 0x32, 0x10, 0x2A, 0xFC, 0xD1, 0xC0, 0x46]);
}

#[test]
fn test_bw_pair_golden() {
    // b.w from 0x20 to 0x60: off = 0x3C, S=0, imm10=0, J1=J2=1, imm11=0x1E.
    assert_eq!(bw_pair(0x20, 0x60), [0xF000, 0xB81E]);
}

#[test]
fn test_bw_pair_roundtrip_through_emulator_decode() {
    for (from, to) in [(0x20u32, 0x60u32), (0x9a16, 0x1d000), (0x1d000, 0x9a1a), (0x100, 0x80)] {
        let [hw1, hw2] = bw_pair(from, to);
        match decode32(hw1, hw2) {
            Some(Instr::Thumb2(Thumb2::B { off })) => {
                assert_eq!(from.wrapping_add(4).wrapping_add(off as u32), to, "from {from:#x} to {to:#x}")
            }
            other => panic!("bw_pair({from:#x}, {to:#x}) decoded as {other:?}"),
        }
    }
}

#[test]
fn test_bw_pair_shadowed_by_bitfield_extract() {
    // A 3 MB forward branch has 0xF340 as its first halfword, which the
    // decoder reads as SBFX before it considers B.W.
    let [hw1, hw2] = bw_pair(0, 0x34_0004);
    assert_eq!(hw1, 0xF340);
    assert!(matches!(decode32(hw1, hw2), Some(Instr::Thumb2(Thumb2::Sbfx { .. }))));
}

#[test]
fn test_cave_body_roundtrip_through_emulator() {
    let mut a = Asm::new(0);
    a.movs(0, 0xFF);
    a.ldr_lit(1, "buf");
    a.strb_imm(0, 1, 15);
    a.pool_word("buf", 0x2000_1000);
    let bytes = a.finish().unwrap();
    assert_eq!(bytes.len() % 4, 0);

    let mut bus = Bus::new(bytes, 0x2000);
    bus.allow_region(0x2000_0000..0x2000_1010);
    let mut cpu = Cpu::new();
    cpu.step(&mut bus).unwrap(); // movs
    cpu.step(&mut bus).unwrap(); // ldr r1, [pc, #...]
    assert_eq!(cpu.r[1], 0x2000_1000, "ldr_lit must deliver the pool word");
    cpu.step(&mut bus).unwrap(); // strb r0, [r1, #15]
    assert_eq!(bus.read_u8(0x2000_100F).unwrap(), 0xFF);
}

#[test]
fn test_branch_out_of_range_errors() {
    let mut a = Asm::new(0);
    a.label("near");
    a.b("near");
    assert!(a.finish().is_ok());
    let mut a = Asm::new(0);
    a.label("far");
    for _ in 0..3000 {
        a.nop();
    }
    a.b("far");
    assert!(matches!(a.finish(), Err(AsmError::BranchOutOfRange(_))));
}

#[test]
fn test_undefined_label_is_refused() {
    let mut a = Asm::new(0);
    a.b("nowhere");
    assert!(matches!(a.finish(), Err(AsmError::UndefinedLabel(_))));
}

#[test]
fn test_pool_addr_holds_pool_word_address() {
    // A pool word that holds the absolute address of another pool word.
    let mut a = Asm::new(0x1000);
    a.ldr_lit(0, "p");
    a.pool_word("w", 7);
    a.pool_addr("p", "w");
    let bytes = a.finish().unwrap();
    // code: ldr (2) + nop pad (2) = 4 bytes; pool: w at 4, p at 8.
    assert_eq!(&bytes[4..8], &7u32.to_le_bytes());
    assert_eq!(&bytes[8..12], &0x1004u32.to_le_bytes());
}
