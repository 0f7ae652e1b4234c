use cloudy_af::emu::bus::{Bus, RAM_BASE};
use cloudy_af::emu::cpu::Cpu;
use cloudy_af::emu::error::EmuError;


/// Run one instruction placed at flash offset 0; return the cpu.
fn run_one(hw: u16) -> Cpu {
    let mut flash = vec![0u8; 0x100];
    flash[0..2].copy_from_slice(&hw.to_le_bytes());
    let mut bus = Bus::new(flash, 0x1000);
    let mut cpu = Cpu::new(); // pc = 0
    cpu.sp = RAM_BASE + 0x800;
    cpu.step(&mut bus).unwrap();
    cpu
}


/// Run one instruction placed at flash offset 0 with register setup.
fn run_one_with(setup: impl Fn(&mut Cpu), hws: &[u16]) -> Cpu {
    let mut flash = vec![0u8; 0x100];
    for (i, hw) in hws.iter().enumerate() {
        flash[i * 2..i * 2 + 2].copy_from_slice(&hw.to_le_bytes());
    }
    let mut bus = Bus::new(flash, 0x1000);
    let mut cpu = Cpu::new();
    cpu.sp = RAM_BASE + 0x800;
    setup(&mut cpu);
    cpu.step(&mut bus).unwrap();
    cpu
}

#[test]
fn test_movs_imm() {
    // 0x2242 = movs r2, #0x42
    let cpu = run_one(0x2242);
    assert_eq!(cpu.r[2], 0x42);
    assert!(!cpu.n && !cpu.z);
    assert_eq!(cpu.pc, 2);
}

#[test]
fn test_movs_zero_sets_z() {
    // 0x2000 = movs r0, #0
    let cpu = run_one(0x2000);
    assert!(cpu.z);
}

#[test]
fn test_lsls_imm() {
    // 0x0088 = lsls r0, r1, #2
    let mut flash = vec![0u8; 0x100];
    flash[0..2].copy_from_slice(&0x0088u16.to_le_bytes());
    let mut bus = Bus::new(flash, 0x1000);
    let mut cpu = Cpu::new();
    cpu.r[1] = 0x4000_0001;
    cpu.step(&mut bus).unwrap();
    assert_eq!(cpu.r[0], 0x0000_0004);
    assert!(cpu.c); // bit 31 shifted out
}

#[test]
fn test_lsrs_imm32() {
    // 0x0808 = lsrs r0, r1, #0 (encoding means shift 32)
    let mut flash = vec![0u8; 0x100];
    flash[0..2].copy_from_slice(&0x0808u16.to_le_bytes());
    let mut bus = Bus::new(flash, 0x1000);
    let mut cpu = Cpu::new();
    cpu.r[1] = 0x8000_0000;
    cpu.step(&mut bus).unwrap();
    assert_eq!(cpu.r[0], 0);
    assert!(cpu.c); // old bit 31
    assert!(cpu.z);
}

#[test]
fn test_adds_subs_imm8_flags() {
    // 0x3001 = adds r0, #1 ; 0x3801 = subs r0, #1
    let mut cpu = run_one(0x3001);
    assert_eq!(cpu.r[0], 1);
    assert!(!cpu.c);
    cpu.r[0] = 0xFFFF_FFFF;
    cpu.pc = 0;
    // rerun adds on 0xFFFFFFFF -> 0 with carry
    let mut flash = vec![0u8; 0x100];
    flash[0..2].copy_from_slice(&0x3001u16.to_le_bytes());
    let mut bus = Bus::new(flash, 0x1000);
    cpu.step(&mut bus).unwrap();
    assert_eq!(cpu.r[0], 0);
    assert!(cpu.c && cpu.z);
}

#[test]
fn test_subs_borrow_clears_c() {
    // 0x1A40 = subs r0, r0, r1
    let mut flash = vec![0u8; 0x100];
    flash[0..2].copy_from_slice(&0x1A40u16.to_le_bytes());
    let mut bus = Bus::new(flash, 0x1000);
    let mut cpu = Cpu::new();
    cpu.r[0] = 3;
    cpu.r[1] = 5;
    cpu.step(&mut bus).unwrap();
    assert_eq!(cpu.r[0], (-2i32) as u32);
    assert!(!cpu.c); // borrow
    assert!(cpu.n);
}

#[test]
fn test_cmp_imm() {
    // 0x2805 = cmp r0, #5
    let mut flash = vec![0u8; 0x100];
    flash[0..2].copy_from_slice(&0x2805u16.to_le_bytes());
    let mut bus = Bus::new(flash, 0x1000);
    let mut cpu = Cpu::new();
    cpu.r[0] = 5;
    cpu.step(&mut bus).unwrap();
    assert!(cpu.z && cpu.c);
}

#[test]
fn test_run_until_budget() {
    // 0xE7FE = b . (branch to self)
    let mut flash = vec![0u8; 0x100];
    flash[0..2].copy_from_slice(&0xE7FEu16.to_le_bytes());
    let mut bus = Bus::new(flash, 0x1000);
    let mut cpu = Cpu::new();
    let err = cpu.run_until(&mut bus, 0x1000, 100).unwrap_err();
    assert!(matches!(err, EmuError::BudgetExceeded { .. }));
}

#[test]
fn test_dataproc_mul() {
    // 0x4348 = muls r0, r1, r0
    let mut flash = vec![0u8; 0x100];
    flash[0..2].copy_from_slice(&0x4348u16.to_le_bytes());
    let mut bus = Bus::new(flash, 0x1000);
    let mut cpu = Cpu::new();
    cpu.r[0] = 7; cpu.r[1] = 6;
    cpu.step(&mut bus).unwrap();
    assert_eq!(cpu.r[0], 42);
}

#[test]
fn test_dataproc_rsb() {
    // 0x4248 = rsbs r0, r1, #0  (negs r0, r1)
    let mut flash = vec![0u8; 0x100];
    flash[0..2].copy_from_slice(&0x4248u16.to_le_bytes());
    let mut bus = Bus::new(flash, 0x1000);
    let mut cpu = Cpu::new();
    cpu.r[1] = 5;
    cpu.step(&mut bus).unwrap();
    assert_eq!(cpu.r[0], (-5i32) as u32);
    assert!(cpu.n);
}

#[test]
fn test_dataproc_adc() {
    // 0x4140 = adcs r0, r0
    let mut flash = vec![0u8; 0x100];
    flash[0..2].copy_from_slice(&0x4140u16.to_le_bytes());
    let mut bus = Bus::new(flash, 0x1000);
    let mut cpu = Cpu::new();
    cpu.r[0] = 1; cpu.c = true;
    cpu.step(&mut bus).unwrap();
    assert_eq!(cpu.r[0], 3);
}

#[test]
fn test_dataproc_sbc_carry_wrap() {
    // 0x4188 = sbcs r0, r1 ; carried fix: sub_flags borrow comparison
    // must not wrap when b = 0xFFFF_FFFF and C is clear.
    let mut flash = vec![0u8; 0x100];
    flash[0..2].copy_from_slice(&0x4188u16.to_le_bytes());
    let mut bus = Bus::new(flash, 0x1000);
    let mut cpu = Cpu::new();
    cpu.r[0] = 5; cpu.r[1] = 0xFFFF_FFFF; cpu.c = false;
    cpu.step(&mut bus).unwrap();
    // 5 - 0xFFFF_FFFF - 1 wraps to 5, but always borrows
    assert_eq!(cpu.r[0], 5);
    assert!(!cpu.c);
}

#[test]
fn test_adds_overflow_v_flag() {
    // 0x3001 = adds r0, #1
    let mut flash = vec![0u8; 0x100];
    flash[0..2].copy_from_slice(&0x3001u16.to_le_bytes());
    let mut bus = Bus::new(flash, 0x1000);
    let mut cpu = Cpu::new();
    cpu.r[0] = 0x7FFF_FFFF;
    cpu.step(&mut bus).unwrap();
    assert!(cpu.v);
    assert!(cpu.n);
    // no-overflow case
    cpu.r[0] = 1;
    cpu.pc = 0;
    cpu.step(&mut bus).unwrap();
    assert_eq!(cpu.r[0], 2);
    assert!(!cpu.v);
}

#[test]
fn test_mov_hi_and_bx() {
    // 0x4686 = mov lr, r0 ; 0x4770 = bx lr
    // (brief said 0x4687, which decodes to mov pc, r0; 0x4686 is mov lr, r0)
    let mut flash = vec![0u8; 0x100];
    flash[0..2].copy_from_slice(&0x4686u16.to_le_bytes());
    flash[2..4].copy_from_slice(&0x4770u16.to_le_bytes());
    let mut bus = Bus::new(flash, 0x1000);
    let mut cpu = Cpu::new();
    cpu.r[0] = 0x41; // bit0 set (thumb)
    cpu.step(&mut bus).unwrap(); // mov lr, r0
    assert_eq!(cpu.lr, 0x41);
    cpu.step(&mut bus).unwrap(); // bx lr
    assert_eq!(cpu.pc, 0x40); // bit0 masked
}

#[test]
fn test_blx_sets_lr() {
    // 0x4788 = blx r1
    let mut flash = vec![0u8; 0x100];
    flash[0..2].copy_from_slice(&0x4788u16.to_le_bytes());
    let mut bus = Bus::new(flash, 0x1000);
    let mut cpu = Cpu::new();
    cpu.r[1] = 0x21;
    cpu.step(&mut bus).unwrap();
    assert_eq!(cpu.pc, 0x20);
    assert_eq!(cpu.lr, 3); // (0 + 2) | 1
}

#[test]
fn test_sbc_v_flag_sign_corner() {
    // 0x4188 = sbcs r0, r1 ; V must not be computed against the
    // wrapped b+!cin (0x7FFF_FFFF + 1 wraps the sign bit).
    let mut flash = vec![0u8; 0x100];
    flash[0..2].copy_from_slice(&0x4188u16.to_le_bytes());
    let mut bus = Bus::new(flash, 0x1000);
    let mut cpu = Cpu::new();
    cpu.r[0] = 0xFFFF_FFFF; cpu.r[1] = 0x7FFF_FFFF; cpu.c = false;
    cpu.step(&mut bus).unwrap();
    // -1 - 2147483647 - 1 = -2147483649, below i32::MIN
    assert_eq!(cpu.r[0], 0x7FFF_FFFF);
    assert!(cpu.v);
}

#[test]
fn test_adc_v_flag_sign_corner() {
    // 0x4148 = adcs r0, r1 ; b+cin wraps the sign bit
    // (0x7FFF_FFFF + 1 = 0x8000_0000), so the XOR formula misses V.
    let mut flash = vec![0u8; 0x100];
    flash[0..2].copy_from_slice(&0x4148u16.to_le_bytes());
    let mut bus = Bus::new(flash, 0x1000);
    let mut cpu = Cpu::new();
    cpu.r[0] = 0; cpu.r[1] = 0x7FFF_FFFF; cpu.c = true;
    cpu.step(&mut bus).unwrap();
    // 0 + 0x7FFF_FFFF + 1 = 0x8000_0000, past i32::MAX
    assert_eq!(cpu.r[0], 0x8000_0000);
    assert!(cpu.v);
}

#[test]
fn test_tst_discards() {
    // 0x4208 = tst r0, r1
    let mut flash = vec![0u8; 0x100];
    flash[0..2].copy_from_slice(&0x4208u16.to_le_bytes());
    let mut bus = Bus::new(flash, 0x1000);
    let mut cpu = Cpu::new();
    cpu.r[0] = 0xF0; cpu.r[1] = 0x0F;
    cpu.step(&mut bus).unwrap();
    assert!(cpu.z);
    assert_eq!(cpu.r[0], 0xF0);
}

#[test]
fn test_systick_ticks_once_per_decoded_step_including_it_skip() {
    let flash = vec![0x00, 0xBF, 0x08, 0xBF, 0x01, 0x20, 0xFF, 0xDE];
    let mut bus = Bus::new(flash, 0x1000);
    bus.write_u32(0xE000_E014, 2).unwrap();
    bus.write_u32(0xE000_E010, 5).unwrap();
    let mut cpu = Cpu::new();
    for expected in [2, 1, 0] {
        cpu.step(&mut bus).unwrap();
        assert_eq!(bus.read_u32(0xE000_E018).unwrap(), expected);
    }
    assert_eq!(cpu.r[0], 0);
    assert_eq!(cpu.pc, 6);
    assert_eq!(bus.read_u32(0xE000_E010).unwrap(), 0x0001_0005);
    assert!(cpu.step(&mut bus).is_err());
    assert_eq!(bus.read_u32(0xE000_E018).unwrap(), 0);
    assert_eq!(bus.read_u32(0xE000_E010).unwrap(), 5);
}

#[test]
fn test_ldmia_w_general_base_and_writeback() {
    // Capstone/ARM T2 vectors: E895 000F = ldm.w r5, {r0-r3};
    // E8B5 000F = ldm.w r5!, {r0-r3}. Neither is a POP from SP.
    for (hw1, writeback) in [(0xE895u16, false), (0xE8B5, true)] {
        let mut flash = vec![0u8; 0x100];
        flash[..2].copy_from_slice(&hw1.to_le_bytes());
        flash[2..4].copy_from_slice(&0x000Fu16.to_le_bytes());
        let mut bus = Bus::new(flash, 0x1000);
        bus.allow_region(RAM_BASE..RAM_BASE + 0x1000);
        let base = RAM_BASE + 0x100;
        let stack = RAM_BASE + 0x800;
        let values = [11u32, 22, 33, 44];
        for (i, value) in values.iter().enumerate() {
            bus.write_u32(base + i as u32 * 4, *value).unwrap();
            bus.write_u32(stack + i as u32 * 4, 0xBAD0_0000 + i as u32).unwrap();
        }
        bus.write_log.clear();
        let mut cpu = Cpu::new();
        cpu.r[5] = base;
        cpu.sp = stack;
        cpu.n = true;
        cpu.z = false;
        cpu.c = true;
        cpu.v = true;
        cpu.step(&mut bus).unwrap();
        assert_eq!(&cpu.r[..4], &values, "load from r5, not SP ({hw1:04x})");
        assert_eq!(cpu.r[5], base + if writeback { 16 } else { 0 });
        assert_eq!(cpu.sp, stack, "general-base LDM must not change SP");
        assert_eq!((cpu.n, cpu.z, cpu.c, cpu.v), (true, false, true, true));
        assert_eq!(cpu.pc, 4);
        assert!(bus.write_log.is_empty());
    }
}

#[test]
fn test_str_ldr_imm_word() {
    // 0x6008 = str r0, [r1, #0] ; 0x680A = ldr r2, [r1, #0]
    let mut flash = vec![0u8; 0x100];
    flash[0..2].copy_from_slice(&0x6008u16.to_le_bytes());
    flash[2..4].copy_from_slice(&0x680Au16.to_le_bytes());
    let mut bus = Bus::new(flash, 0x1000);
    bus.allow_region(RAM_BASE..RAM_BASE + 0x1000);
    let mut cpu = Cpu::new();
    cpu.r[0] = 0xCAFE_BABE;
    cpu.r[1] = RAM_BASE + 0x200;
    cpu.step(&mut bus).unwrap();
    cpu.step(&mut bus).unwrap();
    assert_eq!(cpu.r[2], 0xCAFE_BABE);
    assert!(bus.acl_violations.is_empty());
}

#[test]
fn test_ldrstr_t4_post_indexed_store_advances_base() {
    // str r2, [r0], #4 = F840 2B04 — THE instruction that deadlocked the
    // emulated boot copy loop (0x606): previously decoded as DpImm
    // `orr r11, r0, #4`, so the store never fired and r0 never advanced.
    // Regression: store must land at the ORIGINAL base and r0 must
    // advance by 4.
    let mut flash = vec![0u8; 0x100];
    flash[0..2].copy_from_slice(&0xF840u16.to_le_bytes());
    flash[2..4].copy_from_slice(&0x2B04u16.to_le_bytes());
    let mut bus = Bus::new(flash, 0x1000);
    bus.allow_region(RAM_BASE..RAM_BASE + 0x1000);
    let mut cpu = Cpu::new();
    cpu.r[0] = RAM_BASE + 0x200;
    cpu.r[2] = 0xCAFE_BABE;
    cpu.step(&mut bus).unwrap();
    assert_eq!(bus.read_u32(RAM_BASE + 0x200).unwrap(), 0xCAFE_BABE);
    assert_eq!(cpu.r[0], RAM_BASE + 0x204, "post-indexed writeback must advance r0");
    assert_eq!(cpu.pc, 4);
}

#[test]
fn test_ldrstr_t4_pre_sub_indexed_no_wb() {
    // str r2, [r1, #-4] = F841 2C04 (af_190602 0x6ade): pre-indexed,
    // subtract, W=0 — base register must stay untouched.
    let mut flash = vec![0u8; 0x100];
    flash[0..2].copy_from_slice(&0xF841u16.to_le_bytes());
    flash[2..4].copy_from_slice(&0x2C04u16.to_le_bytes());
    let mut bus = Bus::new(flash, 0x1000);
    bus.allow_region(RAM_BASE..RAM_BASE + 0x1000);
    let mut cpu = Cpu::new();
    cpu.r[1] = RAM_BASE + 0x204;
    cpu.r[2] = 0x1234_5678;
    cpu.step(&mut bus).unwrap();
    assert_eq!(bus.read_u32(RAM_BASE + 0x200).unwrap(), 0x1234_5678);
    assert_eq!(cpu.r[1], RAM_BASE + 0x204, "W=0: no writeback");
}

#[test]
fn test_ldrhstrh_t4_pre_indexed_load_advances_base() {
    // ldrh r2, [r3, #2]! = F833 2F02 — the second boot blocker (0x2414):
    // pre-indexed load from r3+2 must land in r2 AND r3 must become r3+2.
    let mut flash = vec![0u8; 0x100];
    flash[0..2].copy_from_slice(&0xF833u16.to_le_bytes());
    flash[2..4].copy_from_slice(&0x2F02u16.to_le_bytes());
    let mut bus = Bus::new(flash, 0x1000);
    bus.allow_region(RAM_BASE..RAM_BASE + 0x1000);
    bus.write_u16(RAM_BASE + 0x82, 0xBEEF).unwrap();
    let mut cpu = Cpu::new();
    cpu.r[3] = RAM_BASE + 0x80;
    cpu.step(&mut bus).unwrap();
    assert_eq!(cpu.r[2], 0xBEEF, "zero-extended halfword load from r3+2");
    assert_eq!(cpu.r[3], RAM_BASE + 0x82, "pre-indexed writeback");
}

#[test]
fn test_ldrstr_t4_ldr_pc_post_branches_and_advances_sp() {
    // ldr pc, [sp], #4 = F85D FB04 (exception-return epilogue): loads
    // the word into pc as a branch (Thumb bit masked), AND writes sp
    // back with the post-increment — both effects observable.
    let mut flash = vec![0u8; 0x100];
    flash[0..2].copy_from_slice(&0xF85Du16.to_le_bytes());
    flash[2..4].copy_from_slice(&0xFB04u16.to_le_bytes());
    let mut bus = Bus::new(flash, 0x1000);
    bus.allow_region(RAM_BASE..RAM_BASE + 0x1000);
    bus.write_u32(RAM_BASE + 0x300, 0x2000_0041).unwrap(); // thumb target
    let mut cpu = Cpu::new();
    cpu.sp = RAM_BASE + 0x300;
    cpu.step(&mut bus).unwrap();
    assert_eq!(cpu.pc, 0x2000_0040, "LoadWritePC: branch, bit0 masked");
    assert_eq!(cpu.sp, RAM_BASE + 0x304, "post-indexed writeback must advance sp");
}

#[test]
fn test_ldr_literal_aligns_pc() {
    // 0x4801 at pc=2 -> base = align(2+4,4)=4, +4 -> addr 8
    // 0x4801 = ldr r0, [pc, #4]
    let mut flash = vec![0u8; 0x100];
    flash[2..4].copy_from_slice(&0x4801u16.to_le_bytes());
    flash[8..12].copy_from_slice(&0x1234_5678u32.to_le_bytes());
    let mut bus = Bus::new(flash, 0x1000);
    let mut cpu = Cpu::new();
    cpu.pc = 2;
    cpu.step(&mut bus).unwrap();
    assert_eq!(cpu.r[0], 0x1234_5678);
}

#[test]
fn test_ldrsb_sign_extend() {
    // 0x5640 = ldrsb r0, [r0, r1]: op=3 encoding 0x5600 | rm<<6 | rn<<3 | rt
    // with rm=1, rn=0, rt=0 → 0x5600 | 0x40.
    let mut flash = vec![0u8; 0x100];
    flash[0..2].copy_from_slice(&0x5640u16.to_le_bytes());
    let mut bus = Bus::new(flash, 0x1000);
    bus.allow_region(RAM_BASE..RAM_BASE + 0x1000);
    bus.write_u8(RAM_BASE + 0x20, 0x80).unwrap();
    let mut cpu = Cpu::new();
    cpu.r[0] = RAM_BASE + 0x10;
    cpu.r[1] = 0x10;
    cpu.step(&mut bus).unwrap();
    assert_eq!(cpu.r[0], 0xFFFF_FF80);
}

#[test]
fn test_sp_relative_and_adjust() {
    // 0xB002 = add sp, #8 ; 0x9801 = ldr r0, [sp, #4] ; 0x9001 = str r0, [sp, #4]
    let mut flash = vec![0u8; 0x100];
    flash[0..2].copy_from_slice(&0xB002u16.to_le_bytes());
    let mut bus = Bus::new(flash, 0x1000);
    let mut cpu = Cpu::new();
    cpu.sp = RAM_BASE + 0x800;
    cpu.step(&mut bus).unwrap();
    assert_eq!(cpu.sp, RAM_BASE + 0x808);
}

#[test]
fn test_str_acl_violation_through_cpu() {
    // 0x6008 = str r0, [r1, #0] into a non-allowed RAM region
    let mut flash = vec![0u8; 0x100];
    flash[0..2].copy_from_slice(&0x6008u16.to_le_bytes());
    let mut bus = Bus::new(flash, 0x1000); // nothing allowed
    let mut cpu = Cpu::new();
    cpu.r[0] = 0xAA;
    cpu.r[1] = RAM_BASE + 0x200;
    cpu.step(&mut bus).unwrap();
    assert_eq!(bus.acl_violations.len(), 1);
}

#[test]
fn test_unaligned_ldr_succeeds() {
    // 0x6808 = ldr r0, [r1, #0]. ARMv7-M allows unaligned LDR (the af
    // boot genuinely loads a word at 0x20000161) — the load must
    // succeed and return the little-endian byte sequence.
    let mut flash = vec![0u8; 0x100];
    flash[0..2].copy_from_slice(&0x6808u16.to_le_bytes());
    let mut bus = Bus::new(flash, 0x1000);
    bus.write_u32(RAM_BASE + 0x100, 0x1122_3344).unwrap();
    let mut cpu = Cpu::new();
    cpu.r[1] = RAM_BASE + 0x101;
    cpu.step(&mut bus).unwrap();
    // bytes at 0x101..0x105 = 33 22 11 00 → 0x00112233
    assert_eq!(cpu.r[0], 0x0011_2233, "little-endian split across the word");
}

#[test]
fn test_push_pop_roundtrip() {
    // 0xB510 = push {r4, lr} ; 0xBD10 = pop {r4, pc}
    let mut flash = vec![0u8; 0x100];
    flash[0..2].copy_from_slice(&0xB510u16.to_le_bytes());
    flash[2..4].copy_from_slice(&0xBD10u16.to_le_bytes());
    let mut bus = Bus::new(flash, 0x1000);
    bus.allow_region(RAM_BASE..RAM_BASE + 0x1000);
    let mut cpu = Cpu::new();
    cpu.sp = RAM_BASE + 0x800;
    cpu.r[4] = 0x1122_3344;
    cpu.lr = 0x61; // thumb return to 0x60
    cpu.step(&mut bus).unwrap();
    assert_eq!(cpu.sp, RAM_BASE + 0x7F8);
    cpu.r[4] = 0; // clobber to prove pop restores
    cpu.step(&mut bus).unwrap();
    assert_eq!(cpu.r[4], 0x1122_3344);
    assert_eq!(cpu.sp, RAM_BASE + 0x800);
    assert_eq!(cpu.pc, 0x60);
}

#[test]
fn test_strd_ldrd_roundtrip() {
    // strd r12, lr, [sp, #-0x10]! = E96D CE04, then ldrd r2, r3,
    // [sp, #0] (E9DD 2300) reading the same two words back.
    let mut flash = vec![0u8; 0x100];
    flash[0..4].copy_from_slice(&[0x6d, 0xe9, 0x04, 0xce]); // strd r12, lr, [sp, #-0x10]!
    flash[4..8].copy_from_slice(&[0xdd, 0xe9, 0x00, 0x23]); // ldrd r2, r3, [sp, #0]
    let mut bus = Bus::new(flash, 0x1000);
    bus.allow_region(RAM_BASE..RAM_BASE + 0x1000);
    let mut cpu = Cpu::new();
    cpu.sp = RAM_BASE + 0x800;
    cpu.r[12] = 0x1122_3344;
    cpu.lr = 0x5566_7788;
    cpu.step(&mut bus).unwrap();
    // Pre-indexed subtract, writeback: sp = 0x7F0; words at 0x7F0/0x7F4.
    assert_eq!(cpu.sp, RAM_BASE + 0x7F0);
    assert_eq!(bus.read_u32(RAM_BASE + 0x7F0).unwrap(), 0x1122_3344);
    assert_eq!(bus.read_u32(RAM_BASE + 0x7F4).unwrap(), 0x5566_7788);
    cpu.r[2] = 0;
    cpu.r[3] = 0;
    cpu.step(&mut bus).unwrap();
    assert_eq!(cpu.r[2], 0x1122_3344);
    assert_eq!(cpu.r[3], 0x5566_7788);
    // Offset 0, writeback sp += 0: sp unchanged.
    assert_eq!(cpu.sp, RAM_BASE + 0x7F0);
}

#[test]
fn test_bfi_bfc_semantics() {
    // bfi r3, r2, #8, #1 = F362 2308 (af_190602 0x1d7c): set bit 8 of r3
    // to bit 0 of r2; other bits preserved.
    let mut flash = vec![0u8; 0x100];
    flash[0..4].copy_from_slice(&[0x62, 0xf3, 0x08, 0x23]); // bfi r3, r2, #8, #1
    let mut bus = Bus::new(flash, 0x1000);
    let mut cpu = Cpu::new();
    cpu.r[3] = 0xFFFF_FEFF;
    cpu.r[2] = 0x1;
    cpu.step(&mut bus).unwrap();
    assert_eq!(cpu.r[3], 0xFFFF_FFFF);
    // bfc r3, #0, #1 = F36F 0300 (af_190602 0x27f2): clear bit 0.
    let mut flash = vec![0u8; 0x100];
    flash[0..4].copy_from_slice(&[0x6f, 0xf3, 0x00, 0x03]); // bfc r3, #0, #1
    let mut bus = Bus::new(flash, 0x1000);
    let mut cpu = Cpu::new();
    cpu.r[3] = 0xFFFF_FFFF;
    cpu.step(&mut bus).unwrap();
    assert_eq!(cpu.r[3], 0xFFFF_FFFE);
}

#[test]
fn test_subw_plain_imm() {
    // subw r1, r1, #0x726 = F2A1 7126 (af_190602 0x1e08): plain imm12.
    let mut flash = vec![0u8; 0x100];
    flash[0..4].copy_from_slice(&[0xa1, 0xf2, 0x26, 0x71]); // subw r1, r1, #0x726
    let mut bus = Bus::new(flash, 0x1000);
    let mut cpu = Cpu::new();
    cpu.r[1] = 0x800;
    cpu.step(&mut bus).unwrap();
    assert_eq!(cpu.r[1], 0x800 - 0x726);
}

#[test]
fn test_tbh_branch_target() {
    // tbh [pc, r2] at 0 with base = align4(0+4) = 4; halfwords at
    // 4 + 2*r2 scale the target: target = 4 + 2 * entry.
    let mut flash = vec![0u8; 0x100];
    flash[0..4].copy_from_slice(&[0xdf, 0xe8, 0x12, 0xf0]); // tbh [pc, r2]
    flash[4..6].copy_from_slice(&0x0010u16.to_le_bytes()); // entry 0 -> 4 + 32 = 36
    flash[8..10].copy_from_slice(&0x0002u16.to_le_bytes()); // entry 1 (r2=2) -> 4 + 4 = 8
    let mut bus = Bus::new(flash, 0x1000);
    let mut cpu = Cpu::new();
    cpu.r[2] = 2;
    cpu.step(&mut bus).unwrap();
    assert_eq!(cpu.pc, 8);
}

#[test]
fn test_clz_and_mrs() {
    // clz lr, r2 = FAB2 FE82 (af_190602 0x19b6).
    let mut flash = vec![0u8; 0x100];
    flash[0..4].copy_from_slice(&[0xb2, 0xfa, 0x82, 0xfe]); // clz lr, r2
    let mut bus = Bus::new(flash, 0x1000);
    let mut cpu = Cpu::new();
    cpu.r[2] = 0x00F0_0000;
    cpu.step(&mut bus).unwrap();
    assert_eq!(cpu.lr, 8);
    // mrs r4, xpsr = F3EF 8403 (af_190602 0x1cfe): reads 0x0100_0000.
    let mut flash = vec![0u8; 0x100];
    flash[0..4].copy_from_slice(&[0xef, 0xf3, 0x03, 0x84]); // mrs r4, xpsr
    let mut bus = Bus::new(flash, 0x1000);
    let mut cpu = Cpu::new();
    cpu.step(&mut bus).unwrap();
    assert_eq!(cpu.r[4], 0x0100_0000);
}

#[test]
fn test_bcond_taken_and_not() {
    // 0xD101 = bne +2
    let mut flash = vec![0u8; 0x100];
    flash[0..2].copy_from_slice(&0xD101u16.to_le_bytes());
    let mut bus = Bus::new(flash, 0x1000);
    let mut cpu = Cpu::new();
    cpu.z = false;
    cpu.step(&mut bus).unwrap();
    assert_eq!(cpu.pc, 6); // 0 + 4 + 2
    let mut cpu2 = Cpu::new();
    cpu2.z = true;
    cpu2.step(&mut bus).unwrap();
    assert_eq!(cpu2.pc, 2);
}

#[test]
fn test_bl_link_and_target() {
    // BL to +0x10: first hw 0xF000, second 0xF808 (S=0,imm10=0,J1=J2=1,imm11=8 -> off=16)
    // (brief said 0xF008, which has J2=0 and yields off=0x400010 under the
    // ARM formula; 0xF808 is the encoding matching the stated fields)
    let mut flash = vec![0u8; 0x100];
    flash[0..2].copy_from_slice(&0xF000u16.to_le_bytes());
    flash[2..4].copy_from_slice(&0xF808u16.to_le_bytes());
    let mut bus = Bus::new(flash, 0x1000);
    let mut cpu = Cpu::new();
    cpu.step(&mut bus).unwrap();
    assert_eq!(cpu.pc, 0x14); // 0 + 4 + 16
    assert_eq!(cpu.lr, 5);    // (0+4)|1
}

#[test]
fn test_stm_ldm() {
    // 0xC006 = stm r0!, {r1, r2} ; 0xC806 = ldm r0!, {r1, r2}
    let mut flash = vec![0u8; 0x100];
    flash[0..2].copy_from_slice(&0xC006u16.to_le_bytes());
    let mut bus = Bus::new(flash, 0x1000);
    bus.allow_region(RAM_BASE..RAM_BASE + 0x1000);
    let mut cpu = Cpu::new();
    cpu.r[0] = RAM_BASE + 0x100;
    cpu.r[1] = 0x11; cpu.r[2] = 0x22;
    cpu.step(&mut bus).unwrap();
    assert_eq!(cpu.r[0], RAM_BASE + 0x108);
    assert_eq!(bus.read_u32(RAM_BASE + 0x100).unwrap(), 0x11);
    assert_eq!(bus.read_u32(RAM_BASE + 0x104).unwrap(), 0x22);
}

#[test]
fn test_extend_and_rev() {
    // 0xB201 = sxth r1, r0 ; 0xBA01 = rev r1, r0
    let mut flash = vec![0u8; 0x100];
    flash[0..2].copy_from_slice(&0xB201u16.to_le_bytes());
    flash[2..4].copy_from_slice(&0xBA01u16.to_le_bytes());
    let mut bus = Bus::new(flash, 0x1000);
    let mut cpu = Cpu::new();
    cpu.r[0] = 0x1234_80FF;
    cpu.step(&mut bus).unwrap();
    assert_eq!(cpu.r[1], 0xFFFF_80FF);
    cpu.step(&mut bus).unwrap();
    assert_eq!(cpu.r[1], 0xFF80_3412);
}

#[test]
fn test_undefined_instruction_faults() {
    // 0xDE00 is architecturally undefined in v6-M
    let mut flash = vec![0u8; 0x100];
    flash[0..2].copy_from_slice(&0xDE00u16.to_le_bytes());
    let mut bus = Bus::new(flash, 0x1000);
    let mut cpu = Cpu::new();
    let err = cpu.step(&mut bus).unwrap_err();
    assert!(matches!(err, EmuError::Undefined { pc: 0, instr: 0xDE00 }));
}

#[test]
fn test_wild_address_faults_not_panics() {
    // carried ruling: address arithmetic must wrap, not panic in debug.
    // 0x6848 = ldr r0, [r1, #4] with r1 = 0xFFFF_FFFE wraps the base+offset
    // add to 2. With ARMv7-M-legal unaligned loads, address 2 resolves to
    // flash (offset 2 < image len) — the step must succeed with the value
    // read from there (zeros in this fixture), not panic in debug.
    let mut flash = vec![0u8; 0x100];
    flash[0..2].copy_from_slice(&0x6848u16.to_le_bytes());
    let mut bus = Bus::new(flash, 0x1000);
    let mut cpu = Cpu::new();
    cpu.r[1] = 0xFFFF_FFFE;
    cpu.step(&mut bus).unwrap();
    assert_eq!(cpu.r[0], 0);
    assert_eq!(cpu.pc, 2); // 16-bit ldr
}

#[test]
fn test_cbz_cbnz() {
    // 0xB128 = cbz r0, #10 (i=0, imm5=5 -> offset (0:00101:0) = 10)
    let cpu = run_one_with(|cpu| cpu.r[0] = 0, &[0xB128, 0x46C0, 0x46C0, 0x46C0, 0x46C0, 0x46C0, 0x46C0]);
    assert_eq!(cpu.pc, 4 + 10);
    // not taken when rn != 0
    let cpu = run_one_with(|cpu| cpu.r[0] = 7, &[0xB128]);
    assert_eq!(cpu.pc, 2);
    // 0xB911 = cbnz r1, #4 (i=0, imm5=2 -> offset 4)
    let cpu = run_one_with(|cpu| cpu.r[1] = 0x1234, &[0xB911]);
    assert_eq!(cpu.pc, 4 + 4);
    // not taken when rn == 0
    let cpu = run_one_with(|cpu| cpu.r[1] = 0, &[0xB911]);
    assert_eq!(cpu.pc, 2);
    // i bit extends the range: 0xB328 = cbz r0, #(0b1001010) = +74
    let cpu = run_one_with(|cpu| cpu.r[0] = 0, &[0xB328]);
    assert_eq!(cpu.pc, 4 + 74);
}

#[test]
fn test_cps_variants_decode_as_nop() {
    // cpsie i = 0xB662, cpsid i = 0xB672 (and the A/I/F variants) must
    // decode as NOP; only bit 3 set (0xB668) stays architecturally invalid.
    for hw in [0xB660u16, 0xB661, 0xB662, 0xB663, 0xB672] {
        let cpu = run_one(hw);
        assert_eq!(cpu.pc, 2, "CPS {hw:#06x} did not advance pc");
    }
    let mut flash = vec![0u8; 0x100];
    flash[0..2].copy_from_slice(&0xB668u16.to_le_bytes());
    let mut bus = Bus::new(flash, 0x1000);
    let mut cpu = Cpu::new();
    assert!(matches!(cpu.step(&mut bus), Err(EmuError::Undefined { .. })));
}

#[test]
fn test_bl_rejects_bad_second_halfword() {
    // 0xF000 prefix followed by 0xE000 (a `b` encoding, not 11 J1 1 J2)
    // must fault as Undefined instead of branching to a garbage target.
    let mut flash = vec![0u8; 0x100];
    flash[0..2].copy_from_slice(&0xF000u16.to_le_bytes());
    flash[2..4].copy_from_slice(&0xE000u16.to_le_bytes());
    let mut bus = Bus::new(flash, 0x1000);
    let mut cpu = Cpu::new();
    assert!(matches!(cpu.step(&mut bus), Err(EmuError::Undefined { pc: 0, instr: 0xF000 })));
}

#[test]
fn test_tst_w_dpimm_executes() {
    // `tst.w r3, #0x40` (hw1 0xF013, hw2 0x0F40) from af_190602 0x8c8a:
    // sets Z when (r3 & 0x40) == 0, clears it otherwise. No register write.
    let mut flash = vec![0u8; 0x100];
    flash[0..2].copy_from_slice(&0xF013u16.to_le_bytes());
    flash[2..4].copy_from_slice(&0x0F40u16.to_le_bytes());
    let mut bus = Bus::new(flash, 0x1000);
    let mut cpu = Cpu::new();
    cpu.r[3] = 0x40;
    cpu.step(&mut bus).unwrap();
    assert!(!cpu.z);
    assert_eq!(cpu.pc, 4);
    cpu.pc = 0;
    cpu.r[3] = 0x00;
    cpu.step(&mut bus).unwrap();
    assert!(cpu.z);
}

#[test]
fn test_mov_w_dpimm_does_not_read_pc() {
    // `mov.w sl, #3` (hw1 0xF04F, hw2 0x0A03) from af_190602 0x8df2:
    // ORR with Rn = 1111 is the MOV alias — the Rn operand is NOT read,
    // so the result is the immediate, not (pc+4) | imm.
    let mut flash = vec![0u8; 0x100];
    flash[0..2].copy_from_slice(&0xF04Fu16.to_le_bytes());
    flash[2..4].copy_from_slice(&0x0A03u16.to_le_bytes());
    let mut bus = Bus::new(flash, 0x1000);
    let mut cpu = Cpu::new();
    cpu.step(&mut bus).unwrap();
    assert_eq!(cpu.r[10], 3, "mov.w sl, #3 must be 3, not pc|3");
    assert_eq!(cpu.pc, 4);
}

#[test]
fn test_bic_w_asr31_executes() {
    // bic.w r1, r0, r0, asr #31 (EA20 71E0, af_190602 0x13cde):
    // r1 = r0 & ~(r0 asr 31) — i.e. r0 clamped to non-negative.
    let mut flash = vec![0u8; 0x100];
    flash[0..2].copy_from_slice(&0xEA20u16.to_le_bytes());
    flash[2..4].copy_from_slice(&0x71E0u16.to_le_bytes());
    let mut bus = Bus::new(flash, 0x1000);
    let mut cpu = Cpu::new();
    cpu.r[0] = 5;
    cpu.step(&mut bus).unwrap();
    assert_eq!(cpu.r[1], 5);
    cpu.pc = 0;
    cpu.r[0] = 0x8000_0000;
    cpu.step(&mut bus).unwrap();
    assert_eq!(cpu.r[1], 0);
}

#[test]
fn test_lsl_w_mov_alias_executes() {
    // lsl.w sb, sl, #0xc (EA4F 390A): MOV alias, Rn = 1111 operand is
    // not read — result is the shifted Rm only.
    let mut flash = vec![0u8; 0x100];
    flash[0..2].copy_from_slice(&0xEA4Fu16.to_le_bytes());
    flash[2..4].copy_from_slice(&0x390Au16.to_le_bytes());
    let mut bus = Bus::new(flash, 0x1000);
    let mut cpu = Cpu::new();
    cpu.r[10] = 1;
    cpu.step(&mut bus).unwrap();
    assert_eq!(cpu.r[9], 0x1000);
}

#[test]
fn test_pop_w_pc_transfers_and_consumes_word() {
    // pop.w {r4, pc} = e8bd 8010: bit 15 of the list is the pc. The pc
    // word must be popped from the stack (sp advances past it) AND
    // execution must transfer to it — falling through would corrupt the
    // stack by 4 bytes on every function return (found by the
    // af_190602 layer-4 gate as a drift of sp up to ram_top).
    let mut flash = vec![0u8; 0x100];
    flash[0..2].copy_from_slice(&0xe8bdu16.to_le_bytes());
    flash[2..4].copy_from_slice(&0x8010u16.to_le_bytes());
    let mut bus = Bus::new(flash, 0x1000);
    bus.allow_region(RAM_BASE..RAM_BASE + 0x1000);
    let mut cpu = Cpu::new();
    cpu.sp = RAM_BASE + 0x100;
    bus.write_u32(RAM_BASE + 0x100, 0x11223344).unwrap(); // r4
    bus.write_u32(RAM_BASE + 0x104, 0x215 | 1).unwrap();  // pc (thumb bit)
    cpu.step(&mut bus).unwrap();
    assert_eq!(cpu.r[4], 0x11223344);
    assert_eq!(cpu.pc, 0x214);
    assert_eq!(cpu.sp, RAM_BASE + 0x108);
}

#[test]
fn test_stm_w_no_writeback_stores_ascending() {
    // `stm.w sp, {r7, sl}` = e88d 0480 (Capstone-verified, af_190602
    // 0x8e02): STMIA with NO writeback. Decoding this as STMDB sp!
    // (the old behavior) moved sp down 8 bytes and stored the words at
    // the wrong addresses, corrupting a stack slot read later as a
    // format character.
    let mut flash = vec![0u8; 0x100];
    flash[0..2].copy_from_slice(&0xe88du16.to_le_bytes());
    flash[2..4].copy_from_slice(&0x0480u16.to_le_bytes());
    let mut bus = Bus::new(flash, 0x1000);
    bus.allow_region(RAM_BASE..RAM_BASE + 0x1000);
    let mut cpu = Cpu::new();
    cpu.sp = RAM_BASE + 0x100;
    cpu.r[7] = 1;
    cpu.r[10] = 0x1f;
    cpu.step(&mut bus).unwrap();
    assert_eq!(bus.read_u32(RAM_BASE + 0x100).unwrap(), 1);   // r7
    assert_eq!(bus.read_u32(RAM_BASE + 0x104).unwrap(), 0x1f); // sl
    assert_eq!(cpu.sp, RAM_BASE + 0x100); // no writeback
    assert_eq!(cpu.pc, 4);
}

#[test]
fn test_strb_t4_pre_indexed_subtract() {
    // `strb r7, [lr, #-1]!` = F80E 7D01 (Capstone-verified, af_190602
    // 0x13d10): pre-indexed byte store with negative offset and writeback.
    let mut flash = vec![0u8; 0x100];
    flash[0..2].copy_from_slice(&0xF80Eu16.to_le_bytes());
    flash[2..4].copy_from_slice(&0x7D01u16.to_le_bytes());
    let mut bus = Bus::new(flash, 0x1000);
    bus.allow_region(RAM_BASE..RAM_BASE + 0x1000);
    let mut cpu = Cpu::new();
    cpu.lr = RAM_BASE + 0x101;
    cpu.r[7] = 0xAB;
    cpu.step(&mut bus).unwrap();
    assert_eq!(bus.read_u8(RAM_BASE + 0x100).unwrap(), 0xAB);
    assert_eq!(cpu.lr, RAM_BASE + 0x100); // lr - 1 written back
}



fn run(hws: &[u16], setup: impl Fn(&mut Cpu)) -> Cpu {
    let mut flash = vec![0u8; 0x100];
    for (i, hw) in hws.iter().enumerate() {
        flash[i * 2..i * 2 + 2].copy_from_slice(&hw.to_le_bytes());
    }
    let mut bus = Bus::new(flash, 0x1000);
    bus.allow_region(RAM_BASE..RAM_BASE + 0x1000);
    let mut cpu = Cpu::new();
    setup(&mut cpu);
    while cpu.pc < (hws.len() as u32) * 2 {
        cpu.step(&mut bus).unwrap();
    }
    cpu
}

#[test]
fn test_ite_ne_executes_one_arm() {
    // The exact block from af_190602 0x8c8e (Capstone-verified):
    //   ite ne ; movne r2, #0xb7 ; moveq r2, #0x87
    // Before IT support both arms ran and 0x87 always won.
    let hws = [0xBF14, 0x22B7, 0x2287];
    let mut cpu = run(&hws, |c| c.z = false); // ne passes
    assert_eq!(cpu.r[2], 0xB7);
    cpu = run(&hws, |c| c.z = true); // eq passes
    assert_eq!(cpu.r[2], 0x87);
}

#[test]
fn test_it_skip_has_no_side_effects_and_no_fault() {
    // it ne ; ldrb r0, [r1]  — with Z set (eq), the load is skipped:
    // no fault on the unmapped address, r0 untouched.
    let hws = [0xBF18, 0x7808]; // it ne ; ldrb r0, [r1]
    let cpu = run(&hws, |c| {
        c.z = true;
        c.r[1] = 0xDEAD_0000;
    });
    assert_eq!(cpu.r[0], 0);
    assert_eq!(cpu.pc, 4);
}

#[test]
fn test_it_block_with_32bit_instruction() {
    // it ne ; mov.w r0, #7 (F04F 0007: imm8 = 7, Rd = r0).
    let hws = [0xBF18, 0xF04F, 0x0007];
    let mut cpu = run(&hws, |c| c.z = false);
    assert_eq!(cpu.r[0], 7);
    cpu = run(&hws, |c| c.z = true);
    assert_eq!(cpu.r[0], 0); // skipped
}

#[test]
fn test_cond_passes_table() {
    let mut cpu = Cpu::new();
    cpu.n = true; cpu.z = true; cpu.c = false; cpu.v = true;
    let cases = [
        (0x0, true), (0x1, false),          // eq / ne
        (0x2, false), (0x3, true),          // cs / cc
        (0x4, true), (0x5, false),          // mi / pl
        (0x6, true), (0x7, false),          // vs / vc
        (0x8, false), (0x9, true),          // hi / ls
        (0xA, true), (0xB, false),          // ge (N==V) / lt
        (0xC, false), (0xD, true),          // gt / le
        (0xE, true),                        // al
    ];
    for (cond, want) in cases {
        assert_eq!(cpu.cond_passes(cond), want, "cond {cond:#x}");
    }
}

#[test]
fn test_it_expansion_matches_keystone() {
    // (hw, expected effective conditions) — expected values derived from
    // keystone-assembled IT shapes for cond=eq (0) and cond=ne (1):
    // T keeps cond, E inverts it.
    let eq = 0u8;
    let ne = 1u8;
    let cases: &[(u16, &[u8])] = &[
        (0xBF08, &[eq]),                          // it eq
        (0xBF0C, &[eq, eq ^ 1]),                  // ite eq
        (0xBF04, &[eq, eq]),                      // itt eq
        (0xBF0A, &[eq, eq ^ 1, eq]),              // itet eq
        (0xBF02, &[eq, eq, eq]),                  // ittt eq
        (0xBF09, &[eq, eq ^ 1, eq, eq]),          // itett eq
        (0xBF01, &[eq, eq, eq, eq]),              // itttt eq
        (0xBF0D, &[eq, eq ^ 1, eq ^ 1, eq]),      // iteet eq
        (0xBF18, &[ne]),                          // it ne
        (0xBF14, &[ne, ne ^ 1]),                  // ite ne
        (0xBF1C, &[ne, ne]),                      // itt ne
        (0xBF1A, &[ne, ne, ne ^ 1]),              // itte ne
        (0xBF19, &[ne, ne, ne ^ 1, ne ^ 1]),      // ittee ne
        (0xBF1F, &[ne, ne, ne, ne]),              // itttt ne
        (0xBF13, &[ne, ne ^ 1, ne ^ 1, ne]),      // iteet ne
    ];
    for &(hw, want) in cases {
        let mut flash = vec![0u8; 0x40];
        flash[0..2].copy_from_slice(&hw.to_le_bytes());
        // Nop sled for the block body; each nop consumes one slot.
        for i in 1..=4 {
            flash[i * 2..i * 2 + 2].copy_from_slice(&0x46C0u16.to_le_bytes());
        }
        let mut bus = Bus::new(flash, 0x100);
        let mut cpu = Cpu::new();
        cpu.step(&mut bus).unwrap(); // the IT itself
        // Exposed via the block's per-instruction conditions: run the
        // nops and compare against a re-derivation from `want`.
        for (k, &cond) in want.iter().enumerate() {
            assert_eq!(cpu.it_left as usize, want.len() - k, "hw {hw:#x} slot {k}");
            let c = ((cpu.it_conds >> 12) & 0xF) as u8;
            assert_eq!(c, cond, "hw {hw:#x} slot {k}");
            cpu.step(&mut bus).unwrap();
        }
        assert_eq!(cpu.it_left, 0, "hw {hw:#x} block must end");
    }
}

#[test]
fn test_dpimm_logical_preserves_c_for_plain_imm() {
    // tst.w r3, #0x40 (F013 0F40, af_190602 0x8c8a) with old C=1:
    // the plain imm8 form must PRESERVE C (ARM ARM ThumbExpandImm_C).
    // Before the fix the emulator set C = result>>31 = 0.
    let hws = [0xF013, 0x0F40];
    let cpu = run(&hws, |c| {
        c.r[3] = 0xFFFF_FFFF;
        c.c = true;
    });
    assert!(!cpu.z && cpu.c, "tst.w #0x40 must preserve C");
}

#[test]
fn test_dpimm_logical_rotated_imm_reports_carry() {
    // tst.w r3, #0x400 (F413 2F80, imm12 0xA80): rotated form sets
    // C = bit31 of the expanded immediate = 0.
    let hws = [0xF413, 0x2F80];
    let cpu = run(&hws, |c| {
        c.r[3] = 0x0400_0000;
        c.c = true;
    });
    assert!(cpu.z && !cpu.c, "tst.w #0x400 must report shifter carry 0");
}
