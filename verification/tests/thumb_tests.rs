
use cloudy_af::emu::bus::Bus;
use cloudy_af::emu::cpu::Cpu;
use cloudy_af::emu::thumb::{decode, decode32, thumb_expand_imm, thumb_expand_imm_c, DpOp, DpRegOp, Instr, Thumb2};

#[test]
fn test_decode32_conditional_bw() {
    // B<c>.W (T3) vectors, all Capstone-verified (python capstone,
    // CS_MODE_THUMB, target = pc+4 + off with NO 4-byte align). The real
    // one: af_190602 0x9a24 `bmi.w 0x9b48` = F100 8090 -> cond MI,
    // off 0x120, wide.
    match decode32(0xF100, 0x8090).unwrap() {
        Instr::BCond { cond, off, wide } => {
            assert_eq!(cond, 0b0100);
            assert_eq!(off, 0x120);
            assert!(wide);
        }
        other => panic!("expected BCond, got {other:?}"),
    }
    // J1 = hw2 bit 11 -> offset bit 19; J2 = hw2 bit 13 -> offset bit
    // 18; imm6 -> bits 17:12; S sign-extends from bit 20. No EOR
    // transforms (unlike T4/BL).
    for (hw1, hw2, off) in [
        (0xF100, 0x8800, 0x80000),            // J1=1 (bit 11)
        (0xF100, 0xA000, 0x40000),            // J2=1 (bit 13)
        (0xF100, 0xA800, 0xC0000),            // J1+J2
        (0xF100 | 1, 0x8000, 0x1000),     // imm6=1
        (0xF100, 0x8091, 0x122),              // imm11+1
        (0xF500, 0x8090, -0xFFEE0),           // S=1 alone
        (0xF500, 0x8890, -0x7FEE0),           // S=1, J1=1
        (0xF500, 0xA090, -0xBFEE0),           // S=1, J2=1
        (0xF500, 0xA890, -0x3FEE0),           // S=1, J1+J2
    ] {
        match decode32(hw1, hw2).unwrap() {
            Instr::BCond { cond, off: o, wide } => {
                assert_eq!(cond, 0b0100, "cond for {hw1:#x} {hw2:#x}");
                assert_eq!(o, off, "off for {hw1:#x} {hw2:#x}");
                assert!(wide, "wide for {hw1:#x} {hw2:#x}");
            }
            other => panic!("expected BCond, got {other:?}"),
        }
    }
    // cond 0b1110/0b1111 is undefined (like the 16-bit encoding).
    assert!(decode32(0xF100 | (0b1110 << 6), 0x8090).is_none());
}

#[test]
fn test_bcond_wide_not_taken_advances_four() {
    // B<c>.W (T3) not-taken must skip BOTH halfwords; the 16-bit form
    // skips one. Regression: af_190602 0x9a24 `bmi.w 0x9b48` not taken
    // used to fall into the second halfword (0x9a26) and run garbage.
    // bmi.w +0x120 (00 f1 90 80) at 0, then 16-bit beq +0 (00 d0) at 4.
    let mut flash = vec![0u8; 0x100];
    flash[0..6].copy_from_slice(&[0x00, 0xf1, 0x90, 0x80, 0x00, 0xd0]);
    let mut bus = Bus::new(flash, 0x1000);
    let mut cpu = Cpu::new();
    cpu.n = false; // MI false -> not taken
    cpu.step(&mut bus).unwrap();
    assert_eq!(cpu.pc, 4, "T3 not-taken must advance 4");
    // 16-bit beq at 4, Z clear -> not taken, advance 2.
    cpu.step(&mut bus).unwrap();
    assert_eq!(cpu.pc, 6, "16-bit not-taken must advance 2");
}

#[test]
fn test_decode32_push_w_lr() {
    let i = decode32(0xe92d, 0x4ff0).unwrap();
    match i {
        Instr::Thumb2(Thumb2::Stmdb { list }) => {
            assert_eq!(list & 0x0FF0, 0x0FF0); // r4..r11
            assert!(list & (1 << 14) != 0);    // lr
        }
        _ => panic!("expected Stmdb, got {:?}", i),
    }
}

#[test]
fn test_decode32_pop_w_pc() {
    // pop.w {r4-r11, pc} = e8bd 8ff0 (Capstone-verified)
    let i = decode32(0xe8bd, 0x8ff0).unwrap();
    match i {
        Instr::Thumb2(Thumb2::Ldmia { list }) => {
            assert_eq!(list & 0x0FF0, 0x0FF0); // r4..r11
            assert!(list & (1 << 15) != 0);    // pc
        }
        _ => panic!("expected Ldmia, got {:?}", i),
    }
}

#[test]
fn test_decode32_stm_w_no_writeback() {
    // `stm.w sp, {r7, sl}` = e88d 0480 (Capstone-verified, af_190602
    // 0x8e02). W=0 => STMIA with NO writeback, not STMDB sp!.
    let i = decode32(0xe88d, 0x0480).unwrap();
    match i {
        Instr::Thumb2(Thumb2::StmIA { rn, list }) => {
            assert_eq!(rn, 13);           // sp
            assert_eq!(list, 0x0480);     // r7 + r10 (sl)
        }
        _ => panic!("expected StmIA, got {:?}", i),
    }
}

#[test]
fn test_decode32_strb_t4_pre_sub_fields() {
    // `strb r7, [lr, #-1]!` = F80E 7D01 (Capstone-verified): hw2 bits
    // 11:8 = 1101, so P (bit 10) = 1 = pre-indexed, U (bit 9) = 0 =
    // subtract. The pre/sub fields were originally read from swapped
    // bits, decoding this as a post-indexed add.
    let i = decode32(0xF80E, 0x7D01).unwrap();
    match i {
        Instr::Thumb2(Thumb2::StrbT4 { rt, rn, imm, pre, sub }) => {
            assert_eq!((rt, rn, imm), (7, 14, 1));
            assert!(pre && sub);
        }
        _ => panic!("expected StrbT4, got {:?}", i),
    }
}

#[test]
fn test_decode32_tst_w() {
    // `tst.w r3, #0x40`: bytes 13 f0 40 0f.
    let i = decode32(0xF013, 0x0F40).unwrap();
    match i {
        Instr::Thumb2(Thumb2::DpImm { op, rd, rn, set_flags, imm, shifter_c }) => {
            assert_eq!(op, DpOp::And);
            assert_eq!(rd, 15); // TST: rd = 15
            assert_eq!(rn, 3);
            assert!(set_flags);
            assert_eq!(imm, 0x40);
            assert_eq!(shifter_c, None); // plain imm8 form preserves old C
        }
        _ => panic!("expected DpImm TST, got {:?}", i),
    }
}

#[test]
fn test_decode32_ldrh_imm() {
    // Capstone-verified: ldrh.w lr, [sp, #0x20] = hw1 0xF8BD, hw2 0xE020
    // (af_190602 0x14100).
    let i = decode32(0xF8BD, 0xE020).unwrap();
    match i {
        Instr::Thumb2(Thumb2::LdrhImm { rt, rn, imm }) => {
            assert_eq!((rt, rn, imm), (14, 13, 0x20));
        }
        _ => panic!("expected LdrhImm, got {:?}", i),
    }
}

#[test]
fn test_decode32_ldr_imm() {
    // Capstone-verified: ldr.w r2, [r8, #0] = hw1 0xF8D8, hw2 0x2000
    // (af_190602 0x8d0a).
    let i = decode32(0xF8D8, 0x2000).unwrap();
    match i {
        Instr::Thumb2(Thumb2::LdrImm { rt, rn, imm }) => {
            assert_eq!((rt, rn, imm), (2, 8, 0));
        }
        _ => panic!("expected LdrImm, got {:?}", i),
    }
}

#[test]
fn test_decode32_sbfx() {
    // Capstone-verified: sbfx r6, r6, #0x12, #1 = hw1 0xF346, hw2 0x4680
    // (af_190602 0x8ce8).
    let i = decode32(0xF346, 0x4680).unwrap();
    match i {
        Instr::Thumb2(Thumb2::Sbfx { rd, rn, lsbit, width }) => {
            assert_eq!((rd, rn, lsbit, width), (6, 6, 0x12, 1));
        }
        _ => panic!("expected Sbfx, got {:?}", i),
    }
}

#[test]
fn test_decode32_ubfx() {
    // Capstone-verified: ubfx r1, r2, #0, #9 = hw1 0xF3C2, hw2 0x0108
    // (af_190602 0x18e).
    let i = decode32(0xF3C2, 0x0108).unwrap();
    match i {
        Instr::Thumb2(Thumb2::Ubfx { rd, rn, lsbit, width }) => {
            assert_eq!((rd, rn, lsbit, width), (1, 2, 0, 9));
        }
        _ => panic!("expected Ubfx, got {:?}", i),
    }
}

#[test]
fn test_decode32_strb_w_reg() {
    // Capstone-verified: strb.w r4, [r3, r0] = hw1 0xF803, hw2 0x4000.
    let i = decode32(0xF803, 0x4000).unwrap();
    match i {
        Instr::Thumb2(Thumb2::LdrStrReg { load, size, rt, rn, rm, shift }) => {
            assert_eq!((load, size, rt, rn, rm, shift), (false, 1, 4, 3, 0, 0));
        }
        _ => panic!("expected LdrStrReg STRB, got {:?}", i),
    }
}

#[test]
fn test_decode32_ldr_w_reg_shifted() {
    // Capstone-verified: ldr.w r3, [r3, r1, lsl #2] = hw1 0xF853, hw2 0x3021
    // (af_190602 0x1cc).
    let i = decode32(0xF853, 0x3021).unwrap();
    match i {
        Instr::Thumb2(Thumb2::LdrStrReg { load, size, rt, rn, rm, shift }) => {
            assert_eq!((load, size, rt, rn, rm, shift), (true, 4, 3, 3, 1, 2));
        }
        _ => panic!("expected LdrStrReg LDR, got {:?}", i),
    }
}

#[test]
fn test_decode32_sub_w_reg() {
    // Capstone-verified: sub.w lr, r1, r0 = hw1 0xEBA1, hw2 0x0E00
    // (af_190602 0x12bc0).
    let i = decode32(0xEBA1, 0x0E00).unwrap();
    match i {
        Instr::Thumb2(Thumb2::DpReg { op, rd, rn, rm, stype, amount, set_flags }) => {
            assert_eq!((op, rd, rn, rm, stype, amount, set_flags),
                       (DpRegOp::Sub, 14, 1, 0, 0, 0, false));
        }
        _ => panic!("expected DpReg SUB, got {:?}", i),
    }
}

#[test]
fn test_decode32_lsl_w_reg_shift() {
    // Capstone-verified: lsl.w ip, r4, r5 = hw1 0xFA04, hw2 0xFC05
    // (af_190602 0x12bf8).
    let i = decode32(0xFA04, 0xFC05).unwrap();
    match i {
        Instr::Thumb2(Thumb2::MovShiftReg { rd, rn, rm, stype, set_flags }) => {
            assert_eq!((rd, rn, rm, stype, set_flags), (12, 4, 5, 0, false));
        }
        _ => panic!("expected MovShiftReg, got {:?}", i),
    }
}

#[test]
fn test_decode32_movw_movt() {
    // Capstone-verified: movw r3, #0x2327 = hw1 0xF242, hw2 0x3327
    // (af_190602 0x1c418); movt r3, #0x1234 = hw1 0xF2C1, hw2 0x2334.
    let i = decode32(0xF242, 0x3327).unwrap();
    match i {
        Instr::Thumb2(Thumb2::Movw { rd, imm16 }) => {
            assert_eq!((rd, imm16), (3, 0x2327));
        }
        _ => panic!("expected Movw, got {:?}", i),
    }
    let i = decode32(0xF2C1, 0x2334).unwrap();
    match i {
        Instr::Thumb2(Thumb2::Movt { rd, imm16 }) => {
            assert_eq!((rd, imm16), (3, 0x1234));
        }
        _ => panic!("expected Movt, got {:?}", i),
    }
}

#[test]
fn test_thumb_expand_imm_rotated_forms() {
    // Capstone-verified vectors (keystone-assembled cmp.w r2, #imm):
    // the rotated form is ROR(0x80 | imm8[6:0], imm12[11:7]); the earlier
    // implementation rotated raw imm8 by 2*bits[9:8] and decoded
    // cmp.w lr, #0x400 (F5BE 6F80, af_190602 0x12c0c) as 0x00800080,
    // which broke the display-buffer bound check and caused ACL
    // violation write cascades past 0x20002b58.
    assert_eq!(thumb_expand_imm(0xE80), 0x400);
    assert_eq!(thumb_expand_imm(0xC00), 0x8000);
    assert_eq!(thumb_expand_imm(0x780), 0x0100_0000);
    assert_eq!(thumb_expand_imm(0xC7F), 0xFF00);
    assert_eq!(thumb_expand_imm(0x1A5), 0x00A5_00A5);
    assert_eq!(thumb_expand_imm(0x040), 0x40);
    // cmp.w lr, #0x400 = F5BE 6F80 (af_190602 0x12c0c).
    let i = decode32(0xF5BE, 0x6F80).unwrap();
    match i {
        Instr::Thumb2(Thumb2::DpImm { op, rd, rn, set_flags, imm, shifter_c }) => {
            assert_eq!((op, rd, rn, set_flags, imm), (DpOp::Sub, 15, 14, true, 0x400));
            assert_eq!(shifter_c, Some(false)); // rotated form, bit31 = 0
        }
        _ => panic!("expected DpImm CMP, got {:?}", i),
    }
}

#[test]
fn test_decode32_bic_w_asr31() {
    // Capstone-verified: bic.w r1, r0, r0, asr #31 = hw1 0xEA20, hw2 0x71E0
    // (af_190602 0x13cde).
    let i = decode32(0xEA20, 0x71E0).unwrap();
    match i {
        Instr::Thumb2(Thumb2::DpReg { op, rd, rn, rm, stype, amount, set_flags }) => {
            assert_eq!((op, rd, rn, rm, stype, amount, set_flags),
                       (DpRegOp::Bic, 1, 0, 0, 2, 31, false));
        }
        _ => panic!("expected DpReg BIC, got {:?}", i),
    }
}

#[test]
fn test_decode32_lsl_w_mov_alias() {
    // Capstone-verified: lsl.w sb, sl, #0xc = hw1 0xEA4F, hw2 0x390A
    // (MOV alias: rn = 15, op = ORR).
    let i = decode32(0xEA4F, 0x390A).unwrap();
    match i {
        Instr::Thumb2(Thumb2::DpReg { op, rd, rn, rm, stype, amount, set_flags }) => {
            assert_eq!((op, rd, rn, rm, stype, amount, set_flags),
                       (DpRegOp::Orr, 9, 15, 10, 0, 12, false));
        }
        _ => panic!("expected DpReg MOV alias, got {:?}", i),
    }
}

#[test]
fn test_decode32_tst_w_reg() {
    // Capstone-verified: tst.w r5, r6, lsl #2 = hw1 0xEA15, hw2 0x0F86
    // (AND alias: rd = 15, S = 1).
    let i = decode32(0xEA15, 0x0F86).unwrap();
    match i {
        Instr::Thumb2(Thumb2::DpReg { op, rd, rn, rm, stype, amount, set_flags }) => {
            assert_eq!((op, rd, rn, rm, stype, amount, set_flags),
                       (DpRegOp::And, 15, 5, 6, 0, 2, true));
        }
        _ => panic!("expected DpReg TST alias, got {:?}", i),
    }
}

#[test]
fn test_decode32_strb_imm() {
    // Capstone-verified: strb.w r3, [sp, #4] = hw1 0xF88D, hw2 0x3004
    // (af_190602 0x160).
    let i = decode32(0xF88D, 0x3004).unwrap();
    match i {
        Instr::Thumb2(Thumb2::StrbImm { rt, rn, imm }) => {
            assert_eq!((rt, rn, imm), (3, 13, 4));
        }
        _ => panic!("expected StrbImm, got {:?}", i),
    }
}

#[test]
fn test_decode32_strh_imm() {
    // Capstone-verified: strh.w r2, [r5, #0x2a] = hw1 0xF8A5, hw2 0x202A.
    let i = decode32(0xF8A5, 0x202A).unwrap();
    match i {
        Instr::Thumb2(Thumb2::StrhImm { rt, rn, imm }) => {
            assert_eq!((rt, rn, imm), (2, 5, 0x2A));
        }
        _ => panic!("expected StrhImm, got {:?}", i),
    }
}

#[test]
fn test_decode32_udiv() {
    // Capstone-verified: udiv r3, r3, r2 = hw1 0xFBB3, hw2 0xF3F2
    // (af_190602 0x1ac).
    let i = decode32(0xFBB3, 0xF3F2).unwrap();
    match i {
        Instr::Thumb2(Thumb2::Udiv { rd, rn, rm }) => {
            assert_eq!((rd, rn, rm), (3, 3, 2));
        }
        _ => panic!("expected Udiv, got {:?}", i),
    }
}

#[test]
fn test_decode_refuses_wide_prefixes() {
    // First halfwords of 32-bit instructions are no 16-bit instruction.
    assert_eq!(decode(0xF000), None);
    assert_eq!(decode(0xE800), None);
    assert_eq!(decode(0xF800), None);
}
