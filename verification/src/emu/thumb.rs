//! Thumb-1 and Thumb-2 instruction decoding for the ARMv7-M emulator.

use vstd::prelude::*;

verus! {

/// A decoded instruction.
#[derive(Debug, Clone, Copy, PartialEq, Eq, Structural)]
pub enum Instr {
    LslImm { rd: u8, rm: u8, imm: u8 },
    LsrImm { rd: u8, rm: u8, imm: u8 },
    AsrImm { rd: u8, rm: u8, imm: u8 },
    AddReg { rd: u8, rn: u8, rm: u8 },
    SubReg { rd: u8, rn: u8, rm: u8 },
    AddImm3 { rd: u8, rn: u8, imm: u8 },
    SubImm3 { rd: u8, rn: u8, imm: u8 },
    MovImm { rd: u8, imm: u8 },
    CmpImm { rn: u8, imm: u8 },
    AddImm8 { rdn: u8, imm: u8 },
    SubImm8 { rdn: u8, imm: u8 },
    /// 0x4000..0x43FF data-processing; op 0x0..0xF, low registers only.
    DataProc { op: u8, rdn: u8, rm: u8 },
    /// High-register add; register ids 0..15; no flags.
    AddHi { rd: u8, rm: u8 },
    /// High-register compare; sets flags.
    CmpHi { rn: u8, rm: u8 },
    /// High-register move; no flags.
    MovHi { rd: u8, rm: u8 },
    Bx { rm: u8 },
    Blx { rm: u8 },
    /// LDR rt, [PC, #imm8*4]; base is (pc+4) & !3.
    LdrLit { rt: u8, imm: u8 },
    /// Register-offset load/store; op: 0=STR,1=STRH,2=STRB,3=LDRSB,4=LDR,5=LDRH,6=LDRB,7=LDRSH.
    LsReg { op: u8, rt: u8, rn: u8, rm: u8 },
    /// Word/byte load/store with a 5-bit immediate offset.
    LsImm { load: bool, byte: bool, rt: u8, rn: u8, imm: u8 },
    /// Halfword load/store with a 5-bit immediate offset.
    LshImm { load: bool, rt: u8, rn: u8, imm: u8 },
    /// SP-relative load/store, imm8*4.
    LsSp { load: bool, rt: u8, imm: u8 },
    /// ADD rd, PC, #imm8*4 (ADR); base is (pc+4) & !3.
    Adr { rd: u8, imm: u8 },
    /// ADD rd, SP, #imm8*4.
    AddSpImm { rd: u8, imm: u8 },
    /// ADD/SUB SP, #imm7*4.
    AdjSp { sub: bool, imm: u8 },
    /// Unconditional branch; `off` is the byte offset from pc+4.
    B { off: i32 },
    /// PUSH register list; `lr` = store LR too.
    Push { list: u8, lr: bool },
    /// POP register list; `pc` = load PC too (bit 0 masked).
    Pop { list: u8, pc: bool },
    /// STM rn!, {list}: store ascending, writeback.
    Stm { rn: u8, list: u8 },
    /// LDM rn!, {list}: load ascending, writeback unless rn is in the list.
    Ldm { rn: u8, list: u8 },
    /// Conditional branch; `off` is the byte offset from pc+4; `wide` marks
    /// the 32-bit form, which advances pc by 4 when not taken.
    BCond { cond: u8, off: i32, wide: bool },
    /// CBZ/CBNZ: branch on (non-)zero register; `off` from pc+4.
    Cbz { nonzero: bool, rn: u8, off: i32 },
    /// 32-bit branch with link; assembled by `Cpu::step` from both halfwords.
    Bl { off: i32 },
    /// Supervisor call; a no-op here.
    Svc { imm: u8 },
    /// Breakpoint; a no-op here.
    Bkpt { imm: u8 },
    /// Sign/zero extend; op: 0=SXTH,1=SXTB,2=UXTH,3=UXTB.
    Extend { op: u8, rd: u8, rm: u8 },
    /// Byte reverse; op: 0=REV,1=REV16,3=REVSH.
    Rev { op: u8, rd: u8, rm: u8 },
    /// NOP and other hints (including CPS).
    Nop,
    /// IT block: conditionally execute the next 1-4 instructions.
    It { cond: u8, mask: u8 },
    /// 32-bit Thumb-2 instructions decoded by `decode32`.
    Thumb2(Thumb2),
}

/// 32-bit Thumb-2 instructions.
#[derive(Debug, Clone, Copy, PartialEq, Eq, Structural)]
#[allow(inconsistent_fields)]
pub enum Thumb2 {
    /// STMDB sp!, {list}: 32-bit PUSH. `list` bits 0..14 = r0..r14.
    Stmdb { list: u16 },
    /// LDMIA sp!, {list}: 32-bit POP. Bit 15 = pc.
    Ldmia { list: u16 },
    /// LDMIA Rn{!}, {list} from a general base register.
    LdmIA { rn: u8, list: u16, wb: bool },
    /// STMIA Rn, {list} without writeback.
    StmIA { rn: u8, list: u16 },
    /// Data-processing with a modified 12-bit immediate; `shifter_c` is the
    /// immediate's carry-out (None = keep the old C).
    DpImm { op: DpOp, rd: u8, rn: u8, set_flags: bool, imm: u32, shifter_c: Option<bool> },
    /// 32-bit unconditional branch (B.W).
    B { off: i32 },
    /// LDR Rt, [PC, #imm12].
    LdrLitW { rt: u8, imm: u16 },
    /// MUL / MLA / MLS: Rd = Ra +/- Rn*Rm (Ra = 15: MUL).
    Mul { rd: u8, rn: u8, rm: u8, ra: u8, sub: bool },
    /// Signed bit-field extract.
    Sbfx { rd: u8, rn: u8, lsbit: u8, width: u8 },
    /// Unsigned bit-field extract.
    Ubfx { rd: u8, rn: u8, lsbit: u8, width: u8 },
    /// Bit-field insert (Rn != 15) or clear (Rn == 15).
    BfiBfc { rd: u8, rn: u8, lsbit: u8, width: u8 },
    /// LDR/STR (register), byte offset Rm << shift; `size` 1, 2 or 4.
    LdrStrReg { load: bool, size: u8, rt: u8, rn: u8, rm: u8, shift: u8 },
    /// LDRH.W Rt, [Rn, #imm12].
    LdrhImm { rt: u8, rn: u8, imm: u16 },
    /// LDR.W Rt, [Rn, #imm12].
    LdrImm { rt: u8, rn: u8, imm: u16 },
    /// STR.W Rt, [Rn, #imm12].
    StrImm { rt: u8, rn: u8, imm: u16 },
    /// LDRB.W Rt, [Rn, #imm12].
    LdrbImm { rt: u8, rn: u8, imm: u16 },
    /// STRB.W Rt, [Rn, #imm12].
    StrbImm { rt: u8, rn: u8, imm: u16 },
    /// STRH.W Rt, [Rn, #imm12].
    StrhImm { rt: u8, rn: u8, imm: u16 },
    /// STRB Rt, [Rn, #+/-imm8] with writeback (pre- or post-indexed).
    StrbT4 { rt: u8, rn: u8, imm: u8, pre: bool, sub: bool },
    /// LDRB Rt, [Rn, #+/-imm8] with writeback (pre- or post-indexed).
    LdrbT4 { rt: u8, rn: u8, imm: u8, pre: bool, sub: bool },
    /// LDR/STR word with an 8-bit offset, index and writeback bits.
    LdrStrT4 { load: bool, rt: u8, rn: u8, imm: u8, pre: bool, sub: bool, wb: bool },
    /// LDRH/STRH with an 8-bit offset, index and writeback bits.
    LdrhStrhT4 { load: bool, rt: u8, rn: u8, imm: u8, pre: bool, sub: bool, wb: bool },
    /// LDRD/STRD: byte offset imm*4.
    LdrdStrd { load: bool, rt: u8, rt2: u8, rn: u8, imm: u8, pre: bool, sub: bool, wb: bool },
    /// Signed divide, truncated toward zero.
    Sdiv { rd: u8, rn: u8, rm: u8 },
    /// Unsigned divide.
    Udiv { rd: u8, rn: u8, rm: u8 },
    /// Data-processing with a shifted register operand.
    DpReg { op: DpRegOp, rd: u8, rn: u8, rm: u8, stype: u8, amount: u8, set_flags: bool },
    /// LSL/LSR/ASR/ROR.W Rd, Rn, Rm (register-controlled shift).
    MovShiftReg { rd: u8, rn: u8, rm: u8, stype: u8, set_flags: bool },
    /// MOVW Rd, #imm16.
    Movw { rd: u8, imm16: u16 },
    /// MOVT Rd, #imm16.
    Movt { rd: u8, imm16: u16 },
    /// SXTB/SXTH/UXTB/UXTH.W with a byte rotation of the operand.
    Extend { signed: bool, half: bool, rd: u8, rm: u8, rot: u8 },
    /// Count leading zeros.
    Clz { rd: u8, rm: u8 },
    /// Move from a special register.
    Mrs { rd: u8, sysreg: u8 },
    /// SUBW Rd, Rn, #imm12 (plain immediate, no flags).
    Subw { rd: u8, rn: u8, imm: u32 },
    /// Table branch (byte or halfword entries) based at align4(pc+4).
    TbbTbh { half: bool, rm: u8 },
}

/// Operations of the shifted-register data-processing group.
#[derive(Debug, Clone, Copy, PartialEq, Eq, Structural)]
pub enum DpRegOp {
    And,
    Bic,
    Orr,
    Orn,
    Eor,
    Add,
    Adc,
    Sbc,
    Sub,
}

/// Operations of the modified-immediate data-processing group.
#[derive(Debug, Clone, Copy, PartialEq, Eq, Structural)]
pub enum DpOp {
    And,
    Orr,
    Eor,
    Bic,
    Add,
    Sub,
    Rsb,
}

/// `v` rotated right by `n mod 32` bits.
pub open spec fn ror_spec(v: u32, n: u32) -> u32 {
    let s = n % 32;
    if s == 0 {
        v
    } else {
        (v >> s) | (v << ((32 - s) as u32))
    }
}

/// Rotate right by `n mod 32` bits.
pub fn ror32(v: u32, n: u32) -> (r: u32)
    ensures
        r == ror_spec(v, n),
{
    let s = n % 32;
    if s == 0 {
        v
    } else {
        (v >> s) | (v << (32 - s))
    }
}

/// ARM ARM ThumbExpandImm_C: the 32-bit immediate of a 12-bit modified
/// immediate, and the shifter carry-out (None for the unrotated forms,
/// whose carry is the old C flag).
pub open spec fn expand_imm_spec(imm12: u16) -> (u32, Option<bool>) {
    let imm8 = (imm12 & 0xFF) as u32;
    if imm12 & 0xC00 == 0 {
        let pat = (imm12 >> 8u16) & 3;
        let v = if pat == 0 {
            imm8
        } else if pat == 1 {
            (imm8 << 16u32) | imm8
        } else if pat == 2 {
            (imm8 << 24u32) | (imm8 << 8u32)
        } else {
            (imm8 << 24u32) | (imm8 << 16u32) | (imm8 << 8u32) | imm8
        };
        (v, None)
    } else {
        let unrotated = 0x80u32 | (imm8 & 0x7F);
        let rot = ((imm12 >> 7u16) & 0x1F) as u32;
        let v = ror_spec(unrotated, rot);
        (v, Some(v >> 31u32 != 0))
    }
}

proof fn lemma_expand_imm_bits(imm12: u16)
    by (bit_vector)
    ensures
        ((imm12 & 0xFF) as u32) << 16u32 | ((imm12 & 0xFF) as u32) == ((imm12 & 0xFF) as u32) * 0x0001_0001,
        ((imm12 & 0xFF) as u32) << 24u32 | ((imm12 & 0xFF) as u32) << 8u32 == ((imm12 & 0xFF) as u32) * 0x0100_0100,
        ((imm12 & 0xFF) as u32) << 24u32 | ((imm12 & 0xFF) as u32) << 16u32 | ((imm12 & 0xFF) as u32) << 8u32 | ((
        imm12 & 0xFF) as u32) == ((imm12 & 0xFF) as u32) * 0x0101_0101,
        imm12 & 0xC00 != 0 ==> 8 <= ((imm12 >> 7u16) & 0x1F) as u32 && ((imm12 >> 7u16) & 0x1F) as u32 <= 31,
        imm12 & 0xC00 != 0 ==> ror_spec(0x80u32 | ((imm12 & 0xFF) as u32 & 0x7F), ((imm12 >> 7u16) & 0x1F) as u32)
            == (0x80u32 | (imm12 & 0x7F) as u32) << (32 - ((imm12 >> 7u16) & 0x1F) as u32) as u32,
        forall|v: u32| (v >> 31u32 != 0) == (v >= 0x8000_0000),
        imm12 & 0xFF == imm12 % 256,
        (imm12 >> 8u16) & 3 == (imm12 / 256) % 4,
{
}

/// ThumbExpandImm_C as the ARM ARM tabulates it. With bits 11..10 clear,
/// bits 9..8 choose where copies of the byte `imm8` go: `000000XY`,
/// `00XY00XY`, `XY00XY00` or `XYXYXYXY`, and the carry is left alone.
/// Otherwise the value is `1bcdefgh` (bit 7 set, then imm12's bits 6..0)
/// rotated right by imm12's bits 11..7 (8 to 31, so it is that byte moved
/// up by 32 minus the rotation), and the carry is its top bit.
pub proof fn lemma_expand_imm_table(imm12: u16)
    ensures
        ({
            let imm8 = (imm12 % 256) as u32;
            let pat = (imm12 / 256) % 4;
            let r = expand_imm_spec(imm12);
            &&& imm12 & 0xC00 == 0 ==> r.1 is None
            &&& imm12 & 0xC00 == 0 && pat == 0 ==> r.0 == imm8
            &&& imm12 & 0xC00 == 0 && pat == 1 ==> r.0 == imm8 * 0x0001_0001
            &&& imm12 & 0xC00 == 0 && pat == 2 ==> r.0 == imm8 * 0x0100_0100
            &&& imm12 & 0xC00 == 0 && pat == 3 ==> r.0 == imm8 * 0x0101_0101
            &&& imm12 & 0xC00 != 0 ==> r.0 == (0x80u32 | (imm12 & 0x7F) as u32) << (32 - ((imm12 >> 7u16)
                & 0x1F) as u32) as u32 && r.1 == Some(r.0 >= 0x8000_0000)
        }),
{
    lemma_expand_imm_bits(imm12);
}

/// ThumbExpandImm_C (see [`expand_imm_spec`]).
pub fn thumb_expand_imm_c(imm12: u16) -> (r: (u32, Option<bool>))
    ensures
        r == expand_imm_spec(imm12),
{
    let imm8 = (imm12 & 0xFF) as u32;
    if imm12 & 0xC00 == 0 {
        let pat = (imm12 >> 8u16) & 3;
        let v = if pat == 0 {
            imm8
        } else if pat == 1 {
            (imm8 << 16u32) | imm8
        } else if pat == 2 {
            (imm8 << 24u32) | (imm8 << 8u32)
        } else {
            (imm8 << 24u32) | (imm8 << 16u32) | (imm8 << 8u32) | imm8
        };
        (v, None)
    } else {
        let unrotated = 0x80u32 | (imm8 & 0x7F);
        let rot = ((imm12 >> 7u16) & 0x1F) as u32;
        let v = ror32(unrotated, rot);
        (v, Some(v >> 31u32 != 0))
    }
}

/// The expanded immediate alone.
pub fn thumb_expand_imm(imm12: u16) -> (r: u32)
    ensures
        r == expand_imm_spec(imm12).0,
{
    thumb_expand_imm_c(imm12).0
}

/// The halfword starts a 32-bit instruction with the BL/B.W/data-processing
/// prefix 11110 (handled by `Cpu::step` before `decode`).
pub open spec fn is_wide_prefix(hw: u16) -> bool {
    hw >> 11u16 == 0x1E
}

/// Meaning of a 16-bit Thumb halfword.
pub open spec fn decode_spec(hw: u16) -> Option<Instr> {
    if hw >> 10u16 == 0x10 {
        Some(Instr::DataProc { op: ((hw >> 6u16) & 0xF) as u8, rdn: (hw & 7) as u8, rm: ((hw >> 3u16) & 7) as u8 })
    } else if hw >> 8u16 >= 0x44 && hw >> 8u16 <= 0x47 {
        let op = (hw >> 8u16) & 3;
        let rd = ((((hw >> 7u16) & 1) << 3u16) | (hw & 7)) as u8;
        let rm = ((((hw >> 6u16) & 1) << 3u16) | ((hw >> 3u16) & 7)) as u8;
        if op == 0 {
            Some(Instr::AddHi { rd, rm })
        } else if op == 1 {
            Some(Instr::CmpHi { rn: rd, rm })
        } else if op == 2 {
            Some(Instr::MovHi { rd, rm })
        } else if (hw >> 7u16) & 1 == 1 {
            Some(Instr::Blx { rm })
        } else {
            Some(Instr::Bx { rm })
        }
    } else if hw >> 11u16 == 0x09 {
        Some(Instr::LdrLit { rt: ((hw >> 8u16) & 7) as u8, imm: (hw & 0xFF) as u8 })
    } else if hw >> 12u16 == 0x5 {
        Some(Instr::LsReg { op: ((hw >> 9u16) & 7) as u8, rm: ((hw >> 6u16) & 7) as u8, rn: ((hw >> 3u16) & 7) as u8, rt: (hw & 7) as u8 })
    } else if hw >> 13u16 == 0x3 {
        let op = (hw >> 11u16) & 3;
        Some(Instr::LsImm { load: op & 1 == 1, byte: op >= 2, rt: (hw & 7) as u8, rn: ((hw >> 3u16) & 7) as u8, imm: ((hw >> 6u16) & 0x1F) as u8 })
    } else if hw >> 12u16 == 0x8 {
        Some(Instr::LshImm { load: (hw >> 11u16) & 1 == 1, rt: (hw & 7) as u8, rn: ((hw >> 3u16) & 7) as u8, imm: ((hw >> 6u16) & 0x1F) as u8 })
    } else if hw >> 12u16 == 0x9 {
        Some(Instr::LsSp { load: (hw >> 11u16) & 1 == 1, rt: ((hw >> 8u16) & 7) as u8, imm: (hw & 0xFF) as u8 })
    } else if hw >> 12u16 == 0xA {
        let rd = ((hw >> 8u16) & 7) as u8;
        let imm = (hw & 0xFF) as u8;
        if (hw >> 11u16) & 1 == 0 {
            Some(Instr::Adr { rd, imm })
        } else {
            Some(Instr::AddSpImm { rd, imm })
        }
    } else if hw >> 8u16 == 0xB0 {
        Some(Instr::AdjSp { sub: (hw >> 7u16) & 1 == 1, imm: (hw & 0x7F) as u8 })
    } else if (hw & 0xFD00) == 0xB100 || (hw & 0xFD00) == 0xB900 {
        let i = ((hw >> 9u16) % 2) as i32;
        let imm5 = ((hw >> 3u16) % 32) as i32;
        Some(Instr::Cbz { nonzero: (hw >> 11u16) & 1 == 1, rn: (hw & 7) as u8, off: (i * 64 + imm5 * 2) as i32 })
    } else if hw >> 9u16 == 0x5A {
        Some(Instr::Push { list: (hw & 0xFF) as u8, lr: (hw >> 8u16) & 1 == 1 })
    } else if hw >> 9u16 == 0x5E {
        Some(Instr::Pop { list: (hw & 0xFF) as u8, pc: (hw >> 8u16) & 1 == 1 })
    } else if hw >> 8u16 == 0xBA && (hw >> 6u16) & 3 != 2 {
        Some(Instr::Rev { op: ((hw >> 6u16) & 3) as u8, rd: (hw & 7) as u8, rm: ((hw >> 3u16) & 7) as u8 })
    } else if hw >> 8u16 == 0xB2 {
        Some(Instr::Extend { op: ((hw >> 6u16) & 3) as u8, rd: (hw & 7) as u8, rm: ((hw >> 3u16) & 7) as u8 })
    } else if hw >> 8u16 == 0xBE {
        Some(Instr::Bkpt { imm: (hw & 0xFF) as u8 })
    } else if hw >> 8u16 == 0xBF {
        let mask = (hw & 0xF) as u8;
        if mask == 0 {
            Some(Instr::Nop)
        } else {
            Some(Instr::It { cond: ((hw >> 4u16) & 0xF) as u8, mask })
        }
    } else if hw >> 5u16 == 0x5B3 && hw & 0x8 == 0 {
        Some(Instr::Nop)
    } else if hw >> 12u16 == 0xC {
        let rn = ((hw >> 8u16) & 7) as u8;
        let list = (hw & 0xFF) as u8;
        if (hw >> 11u16) & 1 == 0 {
            Some(Instr::Stm { rn, list })
        } else {
            Some(Instr::Ldm { rn, list })
        }
    } else if hw >> 12u16 == 0xD {
        let cond = ((hw >> 8u16) & 0xF) as u8;
        if cond == 0xF {
            Some(Instr::Svc { imm: (hw & 0xFF) as u8 })
        } else if cond == 0xE {
            None
        } else {
            let imm8 = (hw % 256) as i32;
            let off = (if imm8 >= 128 { (imm8 - 256) * 2 } else { imm8 * 2 }) as i32;
            Some(Instr::BCond { cond, off, wide: false })
        }
    } else {
        let top = hw >> 11u16;
        if top == 0 {
            Some(Instr::LslImm { rd: (hw & 7) as u8, rm: ((hw >> 3u16) & 7) as u8, imm: ((hw >> 6u16) & 0x1F) as u8 })
        } else if top == 1 {
            Some(Instr::LsrImm { rd: (hw & 7) as u8, rm: ((hw >> 3u16) & 7) as u8, imm: ((hw >> 6u16) & 0x1F) as u8 })
        } else if top == 2 {
            Some(Instr::AsrImm { rd: (hw & 7) as u8, rm: ((hw >> 3u16) & 7) as u8, imm: ((hw >> 6u16) & 0x1F) as u8 })
        } else if top == 3 {
            let rd = (hw & 7) as u8;
            let rn = ((hw >> 3u16) & 7) as u8;
            let val = ((hw >> 6u16) & 7) as u8;
            let imm_form = (hw >> 10u16) & 1 == 1;
            let sub = (hw >> 9u16) & 1 == 1;
            if !imm_form && !sub {
                Some(Instr::AddReg { rd, rn, rm: val })
            } else if !imm_form {
                Some(Instr::SubReg { rd, rn, rm: val })
            } else if !sub {
                Some(Instr::AddImm3 { rd, rn, imm: val })
            } else {
                Some(Instr::SubImm3 { rd, rn, imm: val })
            }
        } else if top == 4 {
            Some(Instr::MovImm { rd: ((hw >> 8u16) & 7) as u8, imm: (hw & 0xFF) as u8 })
        } else if top == 5 {
            Some(Instr::CmpImm { rn: ((hw >> 8u16) & 7) as u8, imm: (hw & 0xFF) as u8 })
        } else if top == 6 {
            Some(Instr::AddImm8 { rdn: ((hw >> 8u16) & 7) as u8, imm: (hw & 0xFF) as u8 })
        } else if top == 7 {
            Some(Instr::SubImm8 { rdn: ((hw >> 8u16) & 7) as u8, imm: (hw & 0xFF) as u8 })
        } else if top == 0x1C {
            let imm11 = (hw % 2048) as i32;
            let off = (if imm11 >= 1024 { (imm11 - 2048) * 2 } else { imm11 * 2 }) as i32;
            Some(Instr::B { off })
        } else {
            None
        }
    }
}

/// Decode a 16-bit Thumb instruction; None for undefined encodings and the
/// 32-bit prefixes (0b11101, 0b11110, 0b11111).
pub fn decode(hw: u16) -> (r: Option<Instr>)
    ensures
        r == decode_spec(hw),
{
    if hw >> 10u16 == 0x10 {
        Some(Instr::DataProc { op: ((hw >> 6u16) & 0xF) as u8, rdn: (hw & 7) as u8, rm: ((hw >> 3u16) & 7) as u8 })
    } else if hw >> 8u16 >= 0x44 && hw >> 8u16 <= 0x47 {
        let op = (hw >> 8u16) & 3;
        let rd = ((((hw >> 7u16) & 1) << 3u16) | (hw & 7)) as u8;
        let rm = ((((hw >> 6u16) & 1) << 3u16) | ((hw >> 3u16) & 7)) as u8;
        if op == 0 {
            Some(Instr::AddHi { rd, rm })
        } else if op == 1 {
            Some(Instr::CmpHi { rn: rd, rm })
        } else if op == 2 {
            Some(Instr::MovHi { rd, rm })
        } else if (hw >> 7u16) & 1 == 1 {
            Some(Instr::Blx { rm })
        } else {
            Some(Instr::Bx { rm })
        }
    } else if hw >> 11u16 == 0x09 {
        Some(Instr::LdrLit { rt: ((hw >> 8u16) & 7) as u8, imm: (hw & 0xFF) as u8 })
    } else if hw >> 12u16 == 0x5 {
        Some(Instr::LsReg { op: ((hw >> 9u16) & 7) as u8, rm: ((hw >> 6u16) & 7) as u8, rn: ((hw >> 3u16) & 7) as u8, rt: (hw & 7) as u8 })
    } else if hw >> 13u16 == 0x3 {
        let op = (hw >> 11u16) & 3;
        Some(Instr::LsImm { load: op & 1 == 1, byte: op >= 2, rt: (hw & 7) as u8, rn: ((hw >> 3u16) & 7) as u8, imm: ((hw >> 6u16) & 0x1F) as u8 })
    } else if hw >> 12u16 == 0x8 {
        Some(Instr::LshImm { load: (hw >> 11u16) & 1 == 1, rt: (hw & 7) as u8, rn: ((hw >> 3u16) & 7) as u8, imm: ((hw >> 6u16) & 0x1F) as u8 })
    } else if hw >> 12u16 == 0x9 {
        Some(Instr::LsSp { load: (hw >> 11u16) & 1 == 1, rt: ((hw >> 8u16) & 7) as u8, imm: (hw & 0xFF) as u8 })
    } else if hw >> 12u16 == 0xA {
        let rd = ((hw >> 8u16) & 7) as u8;
        let imm = (hw & 0xFF) as u8;
        if (hw >> 11u16) & 1 == 0 {
            Some(Instr::Adr { rd, imm })
        } else {
            Some(Instr::AddSpImm { rd, imm })
        }
    } else if hw >> 8u16 == 0xB0 {
        Some(Instr::AdjSp { sub: (hw >> 7u16) & 1 == 1, imm: (hw & 0x7F) as u8 })
    } else if (hw & 0xFD00) == 0xB100 || (hw & 0xFD00) == 0xB900 {
        let i = ((hw >> 9u16) % 2) as i32;
        let imm5 = ((hw >> 3u16) % 32) as i32;
        Some(Instr::Cbz { nonzero: (hw >> 11u16) & 1 == 1, rn: (hw & 7) as u8, off: (i * 64 + imm5 * 2) as i32 })
    } else if hw >> 9u16 == 0x5A {
        Some(Instr::Push { list: (hw & 0xFF) as u8, lr: (hw >> 8u16) & 1 == 1 })
    } else if hw >> 9u16 == 0x5E {
        Some(Instr::Pop { list: (hw & 0xFF) as u8, pc: (hw >> 8u16) & 1 == 1 })
    } else if hw >> 8u16 == 0xBA && (hw >> 6u16) & 3 != 2 {
        Some(Instr::Rev { op: ((hw >> 6u16) & 3) as u8, rd: (hw & 7) as u8, rm: ((hw >> 3u16) & 7) as u8 })
    } else if hw >> 8u16 == 0xB2 {
        Some(Instr::Extend { op: ((hw >> 6u16) & 3) as u8, rd: (hw & 7) as u8, rm: ((hw >> 3u16) & 7) as u8 })
    } else if hw >> 8u16 == 0xBE {
        Some(Instr::Bkpt { imm: (hw & 0xFF) as u8 })
    } else if hw >> 8u16 == 0xBF {
        let mask = (hw & 0xF) as u8;
        if mask == 0 {
            Some(Instr::Nop)
        } else {
            Some(Instr::It { cond: ((hw >> 4u16) & 0xF) as u8, mask })
        }
    } else if hw >> 5u16 == 0x5B3 && hw & 0x8 == 0 {
        Some(Instr::Nop)
    } else if hw >> 12u16 == 0xC {
        let rn = ((hw >> 8u16) & 7) as u8;
        let list = (hw & 0xFF) as u8;
        if (hw >> 11u16) & 1 == 0 {
            Some(Instr::Stm { rn, list })
        } else {
            Some(Instr::Ldm { rn, list })
        }
    } else if hw >> 12u16 == 0xD {
        let cond = ((hw >> 8u16) & 0xF) as u8;
        if cond == 0xF {
            Some(Instr::Svc { imm: (hw & 0xFF) as u8 })
        } else if cond == 0xE {
            None
        } else {
            let imm8 = (hw % 256) as i32;
            let off = (if imm8 >= 128 { (imm8 - 256) * 2 } else { imm8 * 2 }) as i32;
            Some(Instr::BCond { cond, off, wide: false })
        }
    } else {
        let top = hw >> 11u16;
        if top == 0 {
            Some(Instr::LslImm { rd: (hw & 7) as u8, rm: ((hw >> 3u16) & 7) as u8, imm: ((hw >> 6u16) & 0x1F) as u8 })
        } else if top == 1 {
            Some(Instr::LsrImm { rd: (hw & 7) as u8, rm: ((hw >> 3u16) & 7) as u8, imm: ((hw >> 6u16) & 0x1F) as u8 })
        } else if top == 2 {
            Some(Instr::AsrImm { rd: (hw & 7) as u8, rm: ((hw >> 3u16) & 7) as u8, imm: ((hw >> 6u16) & 0x1F) as u8 })
        } else if top == 3 {
            let rd = (hw & 7) as u8;
            let rn = ((hw >> 3u16) & 7) as u8;
            let val = ((hw >> 6u16) & 7) as u8;
            let imm_form = (hw >> 10u16) & 1 == 1;
            let sub = (hw >> 9u16) & 1 == 1;
            if !imm_form && !sub {
                Some(Instr::AddReg { rd, rn, rm: val })
            } else if !imm_form {
                Some(Instr::SubReg { rd, rn, rm: val })
            } else if !sub {
                Some(Instr::AddImm3 { rd, rn, imm: val })
            } else {
                Some(Instr::SubImm3 { rd, rn, imm: val })
            }
        } else if top == 4 {
            Some(Instr::MovImm { rd: ((hw >> 8u16) & 7) as u8, imm: (hw & 0xFF) as u8 })
        } else if top == 5 {
            Some(Instr::CmpImm { rn: ((hw >> 8u16) & 7) as u8, imm: (hw & 0xFF) as u8 })
        } else if top == 6 {
            Some(Instr::AddImm8 { rdn: ((hw >> 8u16) & 7) as u8, imm: (hw & 0xFF) as u8 })
        } else if top == 7 {
            Some(Instr::SubImm8 { rdn: ((hw >> 8u16) & 7) as u8, imm: (hw & 0xFF) as u8 })
        } else if top == 0x1C {
            let imm11 = (hw % 2048) as i32;
            let off = (if imm11 >= 1024 { (imm11 - 2048) * 2 } else { imm11 * 2 }) as i32;
            Some(Instr::B { off })
        } else {
            None
        }
    }
}

/// Meaning of a 32-bit Thumb-2 instruction given as its two halfwords.
pub open spec fn decode32_spec(hw1: u16, hw2: u16) -> Option<Instr> {
    let op1 = hw1 >> 11u16;
    let op2 = (hw1 >> 9u16) & 3;
    let rn4 = (hw1 & 0xF) as u8;
    let rt4 = ((hw2 >> 12u16) & 0xF) as u8;
    let rd4 = ((hw2 >> 8u16) & 0xF) as u8;
    let rm4 = (hw2 & 0xF) as u8;
    let imm12 = hw2 & 0xFFF;
    let multi = if op1 == 0x1D && op2 == 0 {
        if hw1 & 0xFFF0 == 0xE8D0 && hw2 & 0xFFE0 == 0xF000 {
            Some(Instr::Thumb2(Thumb2::TbbTbh { half: (hw2 >> 4u16) & 1 == 1, rm: rm4 }))
        } else if (hw1 >> 6u16) & 1 == 1 {
            let p = (hw1 >> 8u16) & 1 == 1;
            let w = (hw1 >> 5u16) & 1 == 1;
            if p || w {
                Some(Instr::Thumb2(Thumb2::LdrdStrd {
                    load: (hw1 >> 4u16) & 1 == 1,
                    rt: rt4,
                    rt2: rd4,
                    rn: rn4,
                    imm: (hw2 & 0xFF) as u8,
                    pre: p,
                    sub: (hw1 >> 7u16) & 1 == 0,
                    wb: w,
                }))
            } else {
                None
            }
        } else {
            let w = (hw1 >> 5u16) & 1 == 1;
            let l = (hw1 >> 4u16) & 1 == 1;
            let sub2 = (hw1 >> 7u16) & 3;
            if !w && !l {
                Some(Instr::Thumb2(Thumb2::StmIA { rn: rn4, list: hw2 }))
            } else if l && sub2 == 1 && !(rn4 == 13 && w) {
                Some(Instr::Thumb2(Thumb2::LdmIA { rn: rn4, list: hw2, wb: w }))
            } else if sub2 == 2 || sub2 == 1 {
                if l {
                    Some(Instr::Thumb2(Thumb2::Ldmia { list: hw2 }))
                } else {
                    Some(Instr::Thumb2(Thumb2::Stmdb { list: hw2 }))
                }
            } else {
                None
            }
        }
    } else {
        None
    };
    if multi.is_some() {
        multi
    } else if (hw1 & 0xFE00) == 0xEA00 && hw2 & 0x8000 == 0 {
        let opc = (hw1 >> 5u16) & 0xF;
        let op = if opc == 0 {
            Some(DpRegOp::And)
        } else if opc == 1 {
            Some(DpRegOp::Bic)
        } else if opc == 2 {
            Some(DpRegOp::Orr)
        } else if opc == 3 {
            Some(DpRegOp::Orn)
        } else if opc == 4 {
            Some(DpRegOp::Eor)
        } else if opc == 8 {
            Some(DpRegOp::Add)
        } else if opc == 10 {
            Some(DpRegOp::Adc)
        } else if opc == 11 {
            Some(DpRegOp::Sbc)
        } else if opc == 13 {
            Some(DpRegOp::Sub)
        } else {
            None
        };
        match op {
            Some(op) => {
                let imm3 = (hw2 >> 12u16) & 7;
                Some(Instr::Thumb2(Thumb2::DpReg {
                    op,
                    rd: rd4,
                    rn: rn4,
                    rm: rm4,
                    stype: ((hw2 >> 4u16) & 3) as u8,
                    amount: ((imm3 << 2u16) | ((hw2 >> 6u16) & 3)) as u8,
                    set_flags: (hw1 >> 4u16) & 1 == 1,
                }))
            },
            None => None,
        }
    } else if hw1 == 0xF8DF {
        Some(Instr::Thumb2(Thumb2::LdrLitW { rt: rt4, imm: imm12 }))
    } else if hw1 >> 6u16 == 0x3EC {
        let sub = (hw2 & 0x00F0) == 0x0010;
        if (hw2 & 0x00F0) != 0 && !sub {
            None
        } else {
            Some(Instr::Thumb2(Thumb2::Mul { rd: rd4, rn: rn4, rm: rm4, ra: rt4, sub }))
        }
    } else if op1 == 0x1F && (hw1 & 0x0FF0) == 0x08B0 {
        Some(Instr::Thumb2(Thumb2::LdrhImm { rt: rt4, rn: rn4, imm: imm12 }))
    } else if op1 == 0x1F && (hw1 & 0x0FF0) == 0x08D0 {
        Some(Instr::Thumb2(Thumb2::LdrImm { rt: rt4, rn: rn4, imm: imm12 }))
    } else if op1 == 0x1F && (hw1 & 0x0FF0) == 0x08C0 {
        Some(Instr::Thumb2(Thumb2::StrImm { rt: rt4, rn: rn4, imm: imm12 }))
    } else if op1 == 0x1F && (hw1 & 0x0FF0) == 0x0890 {
        Some(Instr::Thumb2(Thumb2::LdrbImm { rt: rt4, rn: rn4, imm: imm12 }))
    } else if op1 == 0x1F && (hw1 & 0x0FF0) == 0x0880 && hw2 & 0x0800 == 0 {
        Some(Instr::Thumb2(Thumb2::StrbImm { rt: rt4, rn: rn4, imm: imm12 }))
    } else if op1 == 0x1F && (hw1 & 0x0FF0) == 0x08A0 && hw2 & 0x0800 == 0 {
        Some(Instr::Thumb2(Thumb2::StrhImm { rt: rt4, rn: rn4, imm: imm12 }))
    } else if op1 == 0x1F && (hw1 & 0x0FF0) == 0x0800 && (hw2 & 0x0900) == 0x0900 {
        Some(Instr::Thumb2(Thumb2::StrbT4 {
            rt: rt4,
            rn: rn4,
            imm: (hw2 & 0xFF) as u8,
            pre: (hw2 >> 10u16) & 1 == 1,
            sub: (hw2 >> 9u16) & 1 == 0,
        }))
    } else if op1 == 0x1F && (hw1 & 0x0FF0) == 0x0810 && (hw2 & 0x0900) == 0x0900 {
        Some(Instr::Thumb2(Thumb2::LdrbT4 {
            rt: rt4,
            rn: rn4,
            imm: (hw2 & 0xFF) as u8,
            pre: (hw2 >> 10u16) & 1 == 1,
            sub: (hw2 >> 9u16) & 1 == 0,
        }))
    } else if op1 == 0x1F && ((hw1 & 0x0FE0) == 0x0840 || (hw1 & 0x0FE0) == 0x0820) && hw2 & 0x0800
        != 0 && hw2 & 0x0500 != 0 && rn4 != 15 {
        let load = (hw1 >> 4u16) & 1 == 1;
        let imm = (hw2 & 0xFF) as u8;
        let pre = (hw2 >> 10u16) & 1 == 1;
        let sub = (hw2 >> 9u16) & 1 == 0;
        let wb = (hw2 >> 8u16) & 1 == 1;
        if (hw1 & 0x0FE0) == 0x0840 {
            Some(Instr::Thumb2(Thumb2::LdrStrT4 { load, rt: rt4, rn: rn4, imm, pre, sub, wb }))
        } else {
            Some(Instr::Thumb2(Thumb2::LdrhStrhT4 { load, rt: rt4, rn: rn4, imm, pre, sub, wb }))
        }
    } else if op1 == 0x1F && (hw1 & 0xFFF0) == 0xFB90 && (hw2 & 0xF0F0) == 0xF0F0 {
        Some(Instr::Thumb2(Thumb2::Sdiv { rd: rd4, rn: rn4, rm: rm4 }))
    } else if op1 == 0x1F && (hw1 & 0xFFF0) == 0xFBB0 && (hw2 & 0xF0F0) == 0xF0F0 {
        Some(Instr::Thumb2(Thumb2::Udiv { rd: rd4, rn: rn4, rm: rm4 }))
    } else if op1 == 0x1E && ((hw1 & 0xFFF0) == 0xF340 || (hw1 & 0xFFF0) == 0xF3C0) {
        let imm3 = (hw2 >> 12u16) & 7;
        let imm2 = (hw2 >> 6u16) & 3;
        let width = ((hw2 % 32) + 1) as u8;
        let lsbit = ((imm3 << 2u16) | imm2) as u8;
        if lsbit as u32 + width as u32 > 32 {
            None
        } else if (hw1 & 0xFFF0) == 0xF340 {
            Some(Instr::Thumb2(Thumb2::Sbfx { rd: rd4, rn: rn4, lsbit, width }))
        } else {
            Some(Instr::Thumb2(Thumb2::Ubfx { rd: rd4, rn: rn4, lsbit, width }))
        }
    } else if op1 == 0x1E && (hw1 & 0xFFF0) == 0xF360 && hw2 & 0x8020 == 0 {
        let imm3 = (hw2 >> 12u16) & 7;
        let imm2 = (hw2 >> 6u16) & 3;
        let lsbit = ((imm3 << 2u16) | imm2) as u8;
        let msbit = (hw2 % 32) as u8;
        if msbit < lsbit {
            None
        } else {
            Some(Instr::Thumb2(Thumb2::BfiBfc { rd: rd4, rn: rn4, lsbit, width: (msbit - lsbit + 1) as u8 }))
        }
    } else if op1 == 0x1F && (hw1 & 0x0F80) == 0x0800 && (hw2 & 0x0FC0) == 0 {
        let opc = (hw1 >> 4u16) & 7;
        if opc >= 6 {
            None
        } else {
            let load = opc & 1 == 1;
            let size: u8 = if opc < 2 { 1 } else if opc < 4 { 2 } else { 4 };
            Some(Instr::Thumb2(Thumb2::LdrStrReg { load, size, rt: rt4, rn: rn4, rm: rm4, shift: ((hw2 >> 4u16) & 3) as u8 }))
        }
    } else if op1 == 0x1E && ((hw1 & 0xFBF0) == 0xF240 || (hw1 & 0xFBF0) == 0xF2C0) {
        let top = hw1 & 0xF;
        let i = (hw1 >> 10u16) & 1;
        let imm3 = (hw2 >> 12u16) & 7;
        let imm16 = (top << 12u16) | (i << 11u16) | (imm3 << 8u16) | (hw2 & 0xFF);
        if (hw1 & 0x80) != 0 {
            Some(Instr::Thumb2(Thumb2::Movt { rd: rd4, imm16 }))
        } else {
            Some(Instr::Thumb2(Thumb2::Movw { rd: rd4, imm16 }))
        }
    } else if op1 == 0x1E && (hw1 & 0xFBF0) == 0xF2A0 && hw2 & 0x8000 == 0 {
        let i = ((hw1 >> 10u16) & 1) as u32;
        let imm3 = ((hw2 >> 12u16) & 7) as u32;
        let imm = (i << 11u32) | (imm3 << 8u32) | ((hw2 & 0xFF) as u32);
        Some(Instr::Thumb2(Thumb2::Subw { rd: rd4, rn: rn4, imm }))
    } else if hw1 == 0xF3EF && hw2 & 0xF000 == 0x8000 {
        Some(Instr::Thumb2(Thumb2::Mrs { rd: rd4, sysreg: (hw2 & 0xFF) as u8 }))
    } else if op1 == 0x1E && hw2 & 0xD000 == 0x8000 {
        let cond = ((hw1 >> 6u16) & 0xF) as u8;
        if cond >= 0xE {
            None
        } else {
            let s = ((hw1 >> 10u16) % 2) as i32;
            let j1 = ((hw2 >> 11u16) % 2) as i32;
            let j2 = ((hw2 >> 13u16) % 2) as i32;
            let imm6 = (hw1 % 64) as i32;
            let imm11 = (hw2 % 2048) as i32;
            let off = (j1 * 0x80000 + j2 * 0x40000 + imm6 * 0x1000 + imm11 * 2 - s * 0x100000) as i32;
            Some(Instr::BCond { cond, off, wide: true })
        }
    } else if op1 == 0x1E && (hw2 >> 15u16) & 1 == 1 && (hw2 >> 14u16) & 1 == 0 {
        let s = ((hw1 >> 10u16) % 2) as i32;
        let j1 = ((hw2 >> 13u16) % 2) as i32;
        let j2 = ((hw2 >> 11u16) % 2) as i32;
        let i1 = if j1 == s { 1i32 } else { 0i32 };
        let i2 = if j2 == s { 1i32 } else { 0i32 };
        let imm10 = (hw1 % 1024) as i32;
        let imm11 = (hw2 % 2048) as i32;
        let off = (i1 * 0x800000 + i2 * 0x400000 + imm10 * 0x1000 + imm11 * 2 - s * 0x1000000) as i32;
        Some(Instr::Thumb2(Thumb2::B { off }))
    } else if (op1 == 0x1E || op1 == 0x1F) && hw2 & 0x8000 == 0 {
        let class = (hw1 >> 8u16) & 3;
        let sel = (hw1 >> 6u16) & 3;
        let i = (hw1 >> 10u16) & 1;
        let imm3 = (hw2 >> 12u16) & 7;
        let imm12x = (i << 11u16) | (imm3 << 8u16) | (hw2 & 0xFF);
        let op = if class == 0 && sel == 0 {
            Some(DpOp::And)
        } else if class == 0 && sel == 1 {
            Some(DpOp::Orr)
        } else if class == 1 && sel == 0 {
            Some(DpOp::Add)
        } else if class == 1 && sel == 2 {
            Some(DpOp::Sub)
        } else if class == 1 && sel == 3 {
            Some(DpOp::Rsb)
        } else {
            None
        };
        match op {
            Some(op) => {
                let e = expand_imm_spec(imm12x);
                Some(Instr::Thumb2(Thumb2::DpImm {
                    op,
                    rd: rd4,
                    rn: rn4,
                    set_flags: (hw1 >> 4u16) & 1 == 1,
                    imm: e.0,
                    shifter_c: e.1,
                }))
            },
            None => None,
        }
    } else if (hw1 & 0xFFAF) == 0xFA0F && (hw2 & 0xF0C0) == 0xF080 {
        Some(Instr::Thumb2(Thumb2::Extend {
            signed: (hw1 >> 4u16) & 1 == 0,
            half: (hw1 >> 6u16) & 1 == 0,
            rd: rd4,
            rm: rm4,
            rot: ((hw2 >> 4u16) & 3) as u8,
        }))
    } else if (hw1 & 0xFFF0) == 0xFAB0 && (hw2 & 0xF0F0) == 0xF080 {
        Some(Instr::Thumb2(Thumb2::Clz { rd: rd4, rm: rm4 }))
    } else if (hw1 & 0xFE00) == 0xFA00 && (hw2 & 0x70F0) == 0x7000 {
        Some(Instr::Thumb2(Thumb2::MovShiftReg {
            rd: rd4,
            rn: rn4,
            rm: rm4,
            stype: ((hw1 >> 5u16) & 3) as u8,
            set_flags: (hw1 >> 4u16) & 1 == 1,
        }))
    } else {
        None
    }
}

/// Decode a 32-bit Thumb-2 instruction; None for unsupported encodings.
pub fn decode32(hw1: u16, hw2: u16) -> (r: Option<Instr>)
    ensures
        r == decode32_spec(hw1, hw2),
{
    let op1 = hw1 >> 11u16;
    let op2 = (hw1 >> 9u16) & 3;
    let rn4 = (hw1 & 0xF) as u8;
    let rt4 = ((hw2 >> 12u16) & 0xF) as u8;
    let rd4 = ((hw2 >> 8u16) & 0xF) as u8;
    let rm4 = (hw2 & 0xF) as u8;
    let imm12 = hw2 & 0xFFF;
    let multi = if op1 == 0x1D && op2 == 0 {
        if hw1 & 0xFFF0 == 0xE8D0 && hw2 & 0xFFE0 == 0xF000 {
            Some(Instr::Thumb2(Thumb2::TbbTbh { half: (hw2 >> 4u16) & 1 == 1, rm: rm4 }))
        } else if (hw1 >> 6u16) & 1 == 1 {
            let p = (hw1 >> 8u16) & 1 == 1;
            let w = (hw1 >> 5u16) & 1 == 1;
            if p || w {
                Some(Instr::Thumb2(Thumb2::LdrdStrd {
                    load: (hw1 >> 4u16) & 1 == 1,
                    rt: rt4,
                    rt2: rd4,
                    rn: rn4,
                    imm: (hw2 & 0xFF) as u8,
                    pre: p,
                    sub: (hw1 >> 7u16) & 1 == 0,
                    wb: w,
                }))
            } else {
                None
            }
        } else {
            let w = (hw1 >> 5u16) & 1 == 1;
            let l = (hw1 >> 4u16) & 1 == 1;
            let sub2 = (hw1 >> 7u16) & 3;
            if !w && !l {
                Some(Instr::Thumb2(Thumb2::StmIA { rn: rn4, list: hw2 }))
            } else if l && sub2 == 1 && !(rn4 == 13 && w) {
                Some(Instr::Thumb2(Thumb2::LdmIA { rn: rn4, list: hw2, wb: w }))
            } else if sub2 == 2 || sub2 == 1 {
                if l {
                    Some(Instr::Thumb2(Thumb2::Ldmia { list: hw2 }))
                } else {
                    Some(Instr::Thumb2(Thumb2::Stmdb { list: hw2 }))
                }
            } else {
                None
            }
        }
    } else {
        None
    };
    if multi.is_some() {
        multi
    } else if (hw1 & 0xFE00) == 0xEA00 && hw2 & 0x8000 == 0 {
        let opc = (hw1 >> 5u16) & 0xF;
        let op = if opc == 0 {
            Some(DpRegOp::And)
        } else if opc == 1 {
            Some(DpRegOp::Bic)
        } else if opc == 2 {
            Some(DpRegOp::Orr)
        } else if opc == 3 {
            Some(DpRegOp::Orn)
        } else if opc == 4 {
            Some(DpRegOp::Eor)
        } else if opc == 8 {
            Some(DpRegOp::Add)
        } else if opc == 10 {
            Some(DpRegOp::Adc)
        } else if opc == 11 {
            Some(DpRegOp::Sbc)
        } else if opc == 13 {
            Some(DpRegOp::Sub)
        } else {
            None
        };
        match op {
            Some(op) => {
                let imm3 = (hw2 >> 12u16) & 7;
                Some(Instr::Thumb2(Thumb2::DpReg {
                    op,
                    rd: rd4,
                    rn: rn4,
                    rm: rm4,
                    stype: ((hw2 >> 4u16) & 3) as u8,
                    amount: ((imm3 << 2u16) | ((hw2 >> 6u16) & 3)) as u8,
                    set_flags: (hw1 >> 4u16) & 1 == 1,
                }))
            },
            None => None,
        }
    } else if hw1 == 0xF8DF {
        Some(Instr::Thumb2(Thumb2::LdrLitW { rt: rt4, imm: imm12 }))
    } else if hw1 >> 6u16 == 0x3EC {
        let sub = (hw2 & 0x00F0) == 0x0010;
        if (hw2 & 0x00F0) != 0 && !sub {
            None
        } else {
            Some(Instr::Thumb2(Thumb2::Mul { rd: rd4, rn: rn4, rm: rm4, ra: rt4, sub }))
        }
    } else if op1 == 0x1F && (hw1 & 0x0FF0) == 0x08B0 {
        Some(Instr::Thumb2(Thumb2::LdrhImm { rt: rt4, rn: rn4, imm: imm12 }))
    } else if op1 == 0x1F && (hw1 & 0x0FF0) == 0x08D0 {
        Some(Instr::Thumb2(Thumb2::LdrImm { rt: rt4, rn: rn4, imm: imm12 }))
    } else if op1 == 0x1F && (hw1 & 0x0FF0) == 0x08C0 {
        Some(Instr::Thumb2(Thumb2::StrImm { rt: rt4, rn: rn4, imm: imm12 }))
    } else if op1 == 0x1F && (hw1 & 0x0FF0) == 0x0890 {
        Some(Instr::Thumb2(Thumb2::LdrbImm { rt: rt4, rn: rn4, imm: imm12 }))
    } else if op1 == 0x1F && (hw1 & 0x0FF0) == 0x0880 && hw2 & 0x0800 == 0 {
        Some(Instr::Thumb2(Thumb2::StrbImm { rt: rt4, rn: rn4, imm: imm12 }))
    } else if op1 == 0x1F && (hw1 & 0x0FF0) == 0x08A0 && hw2 & 0x0800 == 0 {
        Some(Instr::Thumb2(Thumb2::StrhImm { rt: rt4, rn: rn4, imm: imm12 }))
    } else if op1 == 0x1F && (hw1 & 0x0FF0) == 0x0800 && (hw2 & 0x0900) == 0x0900 {
        Some(Instr::Thumb2(Thumb2::StrbT4 {
            rt: rt4,
            rn: rn4,
            imm: (hw2 & 0xFF) as u8,
            pre: (hw2 >> 10u16) & 1 == 1,
            sub: (hw2 >> 9u16) & 1 == 0,
        }))
    } else if op1 == 0x1F && (hw1 & 0x0FF0) == 0x0810 && (hw2 & 0x0900) == 0x0900 {
        Some(Instr::Thumb2(Thumb2::LdrbT4 {
            rt: rt4,
            rn: rn4,
            imm: (hw2 & 0xFF) as u8,
            pre: (hw2 >> 10u16) & 1 == 1,
            sub: (hw2 >> 9u16) & 1 == 0,
        }))
    } else if op1 == 0x1F && ((hw1 & 0x0FE0) == 0x0840 || (hw1 & 0x0FE0) == 0x0820) && hw2 & 0x0800
        != 0 && hw2 & 0x0500 != 0 && rn4 != 15 {
        let load = (hw1 >> 4u16) & 1 == 1;
        let imm = (hw2 & 0xFF) as u8;
        let pre = (hw2 >> 10u16) & 1 == 1;
        let sub = (hw2 >> 9u16) & 1 == 0;
        let wb = (hw2 >> 8u16) & 1 == 1;
        if (hw1 & 0x0FE0) == 0x0840 {
            Some(Instr::Thumb2(Thumb2::LdrStrT4 { load, rt: rt4, rn: rn4, imm, pre, sub, wb }))
        } else {
            Some(Instr::Thumb2(Thumb2::LdrhStrhT4 { load, rt: rt4, rn: rn4, imm, pre, sub, wb }))
        }
    } else if op1 == 0x1F && (hw1 & 0xFFF0) == 0xFB90 && (hw2 & 0xF0F0) == 0xF0F0 {
        Some(Instr::Thumb2(Thumb2::Sdiv { rd: rd4, rn: rn4, rm: rm4 }))
    } else if op1 == 0x1F && (hw1 & 0xFFF0) == 0xFBB0 && (hw2 & 0xF0F0) == 0xF0F0 {
        Some(Instr::Thumb2(Thumb2::Udiv { rd: rd4, rn: rn4, rm: rm4 }))
    } else if op1 == 0x1E && ((hw1 & 0xFFF0) == 0xF340 || (hw1 & 0xFFF0) == 0xF3C0) {
        let imm3 = (hw2 >> 12u16) & 7;
        let imm2 = (hw2 >> 6u16) & 3;
        let width = ((hw2 % 32) + 1) as u8;
        let lsbit = ((imm3 << 2u16) | imm2) as u8;
        if lsbit as u32 + width as u32 > 32 {
            None
        } else if (hw1 & 0xFFF0) == 0xF340 {
            Some(Instr::Thumb2(Thumb2::Sbfx { rd: rd4, rn: rn4, lsbit, width }))
        } else {
            Some(Instr::Thumb2(Thumb2::Ubfx { rd: rd4, rn: rn4, lsbit, width }))
        }
    } else if op1 == 0x1E && (hw1 & 0xFFF0) == 0xF360 && hw2 & 0x8020 == 0 {
        let imm3 = (hw2 >> 12u16) & 7;
        let imm2 = (hw2 >> 6u16) & 3;
        let lsbit = ((imm3 << 2u16) | imm2) as u8;
        let msbit = (hw2 % 32) as u8;
        if msbit < lsbit {
            None
        } else {
            Some(Instr::Thumb2(Thumb2::BfiBfc { rd: rd4, rn: rn4, lsbit, width: (msbit - lsbit + 1) as u8 }))
        }
    } else if op1 == 0x1F && (hw1 & 0x0F80) == 0x0800 && (hw2 & 0x0FC0) == 0 {
        let opc = (hw1 >> 4u16) & 7;
        if opc >= 6 {
            None
        } else {
            let load = opc & 1 == 1;
            let size: u8 = if opc < 2 { 1 } else if opc < 4 { 2 } else { 4 };
            Some(Instr::Thumb2(Thumb2::LdrStrReg { load, size, rt: rt4, rn: rn4, rm: rm4, shift: ((hw2 >> 4u16) & 3) as u8 }))
        }
    } else if op1 == 0x1E && ((hw1 & 0xFBF0) == 0xF240 || (hw1 & 0xFBF0) == 0xF2C0) {
        let top = hw1 & 0xF;
        let i = (hw1 >> 10u16) & 1;
        let imm3 = (hw2 >> 12u16) & 7;
        let imm16 = (top << 12u16) | (i << 11u16) | (imm3 << 8u16) | (hw2 & 0xFF);
        if (hw1 & 0x80) != 0 {
            Some(Instr::Thumb2(Thumb2::Movt { rd: rd4, imm16 }))
        } else {
            Some(Instr::Thumb2(Thumb2::Movw { rd: rd4, imm16 }))
        }
    } else if op1 == 0x1E && (hw1 & 0xFBF0) == 0xF2A0 && hw2 & 0x8000 == 0 {
        let i = ((hw1 >> 10u16) & 1) as u32;
        let imm3 = ((hw2 >> 12u16) & 7) as u32;
        let imm = (i << 11u32) | (imm3 << 8u32) | ((hw2 & 0xFF) as u32);
        Some(Instr::Thumb2(Thumb2::Subw { rd: rd4, rn: rn4, imm }))
    } else if hw1 == 0xF3EF && hw2 & 0xF000 == 0x8000 {
        Some(Instr::Thumb2(Thumb2::Mrs { rd: rd4, sysreg: (hw2 & 0xFF) as u8 }))
    } else if op1 == 0x1E && hw2 & 0xD000 == 0x8000 {
        let cond = ((hw1 >> 6u16) & 0xF) as u8;
        if cond >= 0xE {
            None
        } else {
            let s = ((hw1 >> 10u16) % 2) as i32;
            let j1 = ((hw2 >> 11u16) % 2) as i32;
            let j2 = ((hw2 >> 13u16) % 2) as i32;
            let imm6 = (hw1 % 64) as i32;
            let imm11 = (hw2 % 2048) as i32;
            let off = (j1 * 0x80000 + j2 * 0x40000 + imm6 * 0x1000 + imm11 * 2 - s * 0x100000) as i32;
            Some(Instr::BCond { cond, off, wide: true })
        }
    } else if op1 == 0x1E && (hw2 >> 15u16) & 1 == 1 && (hw2 >> 14u16) & 1 == 0 {
        let s = ((hw1 >> 10u16) % 2) as i32;
        let j1 = ((hw2 >> 13u16) % 2) as i32;
        let j2 = ((hw2 >> 11u16) % 2) as i32;
        let i1 = if j1 == s { 1i32 } else { 0i32 };
        let i2 = if j2 == s { 1i32 } else { 0i32 };
        let imm10 = (hw1 % 1024) as i32;
        let imm11 = (hw2 % 2048) as i32;
        let off = (i1 * 0x800000 + i2 * 0x400000 + imm10 * 0x1000 + imm11 * 2 - s * 0x1000000) as i32;
        Some(Instr::Thumb2(Thumb2::B { off }))
    } else if (op1 == 0x1E || op1 == 0x1F) && hw2 & 0x8000 == 0 {
        let class = (hw1 >> 8u16) & 3;
        let sel = (hw1 >> 6u16) & 3;
        let i = (hw1 >> 10u16) & 1;
        let imm3 = (hw2 >> 12u16) & 7;
        let imm12x = (i << 11u16) | (imm3 << 8u16) | (hw2 & 0xFF);
        let op = if class == 0 && sel == 0 {
            Some(DpOp::And)
        } else if class == 0 && sel == 1 {
            Some(DpOp::Orr)
        } else if class == 1 && sel == 0 {
            Some(DpOp::Add)
        } else if class == 1 && sel == 2 {
            Some(DpOp::Sub)
        } else if class == 1 && sel == 3 {
            Some(DpOp::Rsb)
        } else {
            None
        };
        match op {
            Some(op) => {
                let e = thumb_expand_imm_c(imm12x);
                Some(Instr::Thumb2(Thumb2::DpImm {
                    op,
                    rd: rd4,
                    rn: rn4,
                    set_flags: (hw1 >> 4u16) & 1 == 1,
                    imm: e.0,
                    shifter_c: e.1,
                }))
            },
            None => None,
        }
    } else if (hw1 & 0xFFAF) == 0xFA0F && (hw2 & 0xF0C0) == 0xF080 {
        Some(Instr::Thumb2(Thumb2::Extend {
            signed: (hw1 >> 4u16) & 1 == 0,
            half: (hw1 >> 6u16) & 1 == 0,
            rd: rd4,
            rm: rm4,
            rot: ((hw2 >> 4u16) & 3) as u8,
        }))
    } else if (hw1 & 0xFFF0) == 0xFAB0 && (hw2 & 0xF0F0) == 0xF080 {
        Some(Instr::Thumb2(Thumb2::Clz { rd: rd4, rm: rm4 }))
    } else if (hw1 & 0xFE00) == 0xFA00 && (hw2 & 0x70F0) == 0x7000 {
        Some(Instr::Thumb2(Thumb2::MovShiftReg {
            rd: rd4,
            rn: rn4,
            rm: rm4,
            stype: ((hw1 >> 5u16) & 3) as u8,
            set_flags: (hw1 >> 4u16) & 1 == 1,
        }))
    } else {
        None
    }
}

} // verus!
