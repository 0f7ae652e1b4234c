//! The meaning of each instruction as a function of the architectural state
//! (registers, flags, IT state) and the bus.

use crate::emu::bus::{begin_step_spec, read_spec, tick_spec, write_spec, BusView};
use crate::emu::error::EmuError;
use crate::emu::thumb::{decode32_spec, decode_spec, ror_spec, DpOp, DpRegOp, Instr, Thumb2};
use vstd::prelude::*;

verus! {

/// Architectural state of the core (the run-loop bookkeeping, trace and
/// lowest sp, is kept apart).
pub struct Core {
    pub r: Seq<u32>,
    pub sp: u32,
    pub lr: u32,
    pub pc: u32,
    pub n: bool,
    pub z: bool,
    pub c: bool,
    pub v: bool,
    pub it_left: u8,
    pub it_conds: u16,
}

/// Result of running one instruction: the outcome, the new core, the new bus.
pub type Outcome = (Result<(), EmuError>, Core, BusView);

pub open spec fn wadd(a: u32, b: u32) -> u32 {
    vstd::wrapping::u32_specs::wrapping_add(a, b)
}

pub open spec fn wsub(a: u32, b: u32) -> u32 {
    vstd::wrapping::u32_specs::wrapping_sub(a, b)
}

pub open spec fn wmul(a: u32, b: u32) -> u32 {
    vstd::wrapping::u32_specs::wrapping_mul(a, b)
}

/// Two's-complement value of a 32-bit word.
pub open spec fn sval(a: u32) -> int {
    if a >= 0x8000_0000 {
        a - 0x1_0000_0000
    } else {
        a as int
    }
}

/// The word whose two's-complement value is `x mod 2^32`.
pub open spec fn word(x: int) -> u32 {
    (x % 0x1_0000_0000) as u32
}

/// pc + 4 + off, the target of a pc-relative branch.
pub open spec fn branch_target(pc: u32, off: i32) -> u32 {
    word(pc + 4 + off)
}

pub open spec fn in_i32(x: int) -> bool {
    -0x8000_0000 <= x <= 0x7FFF_FFFF
}

/// AddWithCarry: (result, carry, overflow) of a + b + cin.
pub open spec fn adc_spec(a: u32, b: u32, cin: bool) -> (u32, bool, bool) {
    let ci: int = if cin { 1 } else { 0 };
    let wide = a + b + ci;
    (word(wide), wide > 0xFFFF_FFFF, !in_i32(sval(a) + sval(b) + ci))
}

/// Subtract with carry: (result, carry, overflow) of a - b - (1 - cin).
pub open spec fn sbc_spec(a: u32, b: u32, cin: bool) -> (u32, bool, bool) {
    let bw: int = if cin { 0 } else { 1 };
    (word(a - b - bw), a >= b + bw, !in_i32(sval(a) - sval(b) - bw))
}

/// Arithmetic shift right of a word by `s` < 32.
pub open spec fn asr_word(v: u32, s: u32) -> u32 {
    if v >> 31u32 == 1 {
        (v >> s) | !(0xFFFF_FFFFu32 >> s)
    } else {
        v >> s
    }
}

/// Bit `i` of `v`.
pub open spec fn bit(v: u32, i: u32) -> bool {
    (v >> i) & 1 == 1
}

/// LSL by an amount with carry-out; amount 0 keeps the value and carry.
pub open spec fn lsl_c_spec(v: u32, s: u32, cin: bool) -> (u32, bool) {
    if s == 0 {
        (v, cin)
    } else if s < 32 {
        (v << s, bit(v, (32 - s) as u32))
    } else if s == 32 {
        (0, bit(v, 0))
    } else {
        (0, false)
    }
}

/// LSR by an amount with carry-out, amount 0 standing for 32 (immediate forms).
pub open spec fn lsr_c_spec(v: u32, s: u32) -> (u32, bool) {
    let s = if s == 0 { 32 } else { s };
    if s < 32 {
        (v >> s, bit(v, (s - 1) as u32))
    } else if s == 32 {
        (0, v >> 31u32 != 0)
    } else {
        (0, false)
    }
}

/// ASR by an amount with carry-out, amount 0 standing for 32 (immediate forms).
pub open spec fn asr_c_spec(v: u32, s: u32) -> (u32, bool) {
    let s = if s == 0 { 32 } else { s };
    if s >= 32 {
        let c = v >> 31u32 != 0;
        (if c { 0xFFFF_FFFF } else { 0 }, c)
    } else {
        (asr_word(v, s), bit(v, (s - 1) as u32))
    }
}

/// Register-controlled shift (amount 0..255) with carry-out; stype 0=LSL,
/// 1=LSR, 2=ASR, 3=ROR. An amount of 0 leaves value and carry unchanged.
pub open spec fn shift_reg_spec(value: u32, stype: u8, amount: u32, cin: bool) -> (u32, bool) {
    if amount == 0 {
        (value, cin)
    } else if stype == 0 {
        lsl_c_spec(value, amount, cin)
    } else if stype == 1 {
        lsr_c_spec(value, amount)
    } else if stype == 2 {
        asr_c_spec(value, amount)
    } else {
        let v = ror_spec(value, amount);
        (v, v >> 31u32 != 0)
    }
}

/// Immediate-shift barrel shifter with carry-out (DecodeImmShift + Shift_C):
/// amount 0 means LSR/ASR #32 and ROR #0 means RRX.
pub open spec fn shift_c_spec(value: u32, stype: u8, amount: u8, cin: bool) -> (u32, bool) {
    let a = amount as u32;
    if stype == 0 {
        lsl_c_spec(value, a, cin)
    } else if stype == 1 {
        lsr_c_spec(value, a)
    } else if stype == 2 {
        asr_c_spec(value, a)
    } else if a == 0 {
        ((value >> 1u32) | (if cin { 0x8000_0000u32 } else { 0u32 }), bit(value, 0))
    } else {
        let v = ror_spec(value, a);
        (v, v >> 31u32 != 0)
    }
}

/// Register read: r13 = sp, r14 = lr, r15 = pc + 4.
pub open spec fn reg_spec(s: Core, i: u8) -> u32 {
    if i == 13 {
        s.sp
    } else if i == 14 {
        s.lr
    } else if i == 15 {
        wadd(s.pc, 4)
    } else {
        s.r[i as int]
    }
}

/// Register write: writing r15 branches (bit 0 cleared).
pub open spec fn set_reg_spec(s: Core, i: u8, v: u32) -> Core {
    if i == 13 {
        Core { sp: v, ..s }
    } else if i == 14 {
        Core { lr: v, ..s }
    } else if i == 15 {
        Core { pc: v & 0xFFFF_FFFE, ..s }
    } else {
        Core { r: s.r.update(i as int, v), ..s }
    }
}

pub open spec fn set_low(s: Core, i: u8, v: u32) -> Core {
    Core { r: s.r.update(i as int, v), ..s }
}

pub open spec fn set_nz_spec(s: Core, res: u32) -> Core {
    Core { n: res >> 31u32 != 0, z: res == 0, ..s }
}

pub open spec fn set_nzcv_spec(s: Core, res: u32, c: bool, v: bool) -> Core {
    Core { c, v, ..set_nz_spec(s, res) }
}

pub open spec fn advance(s: Core, len: u32) -> Core {
    Core { pc: wadd(s.pc, len), ..s }
}

/// Condition code of a conditional branch (14/15 never reach here).
pub open spec fn cond_true_spec(s: Core, cond: u8) -> bool {
    if cond == 0 {
        s.z
    } else if cond == 1 {
        !s.z
    } else if cond == 2 {
        s.c
    } else if cond == 3 {
        !s.c
    } else if cond == 4 {
        s.n
    } else if cond == 5 {
        !s.n
    } else if cond == 6 {
        s.v
    } else if cond == 7 {
        !s.v
    } else if cond == 8 {
        s.c && !s.z
    } else if cond == 9 {
        !s.c || s.z
    } else if cond == 10 {
        s.n == s.v
    } else if cond == 11 {
        s.n != s.v
    } else if cond == 12 {
        !s.z && s.n == s.v
    } else if cond == 13 {
        s.z || s.n != s.v
    } else {
        false
    }
}

/// Condition evaluation for IT blocks: base condition by c>>1, inverted by
/// the low bit (0xE and 0xF pass).
pub open spec fn cond_passes_spec(s: Core, c: u8) -> bool {
    let k = c >> 1u8;
    let base = if k == 0 {
        s.z
    } else if k == 1 {
        s.c
    } else if k == 2 {
        s.n
    } else if k == 3 {
        s.v
    } else if k == 4 {
        s.c && !s.z
    } else if k == 5 {
        s.n == s.v
    } else if k == 6 {
        !s.z && s.n == s.v
    } else {
        true
    };
    base != (c & 1 == 1)
}

/// Sign extension of a byte / halfword.
pub open spec fn sext8(v: u32) -> u32 {
    let b = v & 0xFF;
    if b >= 0x80 {
        b | 0xFFFF_FF00
    } else {
        b
    }
}

pub open spec fn sext16(v: u32) -> u32 {
    let h = v & 0xFFFF;
    if h >= 0x8000 {
        h | 0xFFFF_0000
    } else {
        h
    }
}

/// Byte reversal of a word / of each halfword / of the low halfword (sign-extended).
pub open spec fn rev_spec(v: u32) -> u32 {
    ((v & 0xFF) << 24u32) | (((v >> 8u32) & 0xFF) << 16u32) | (((v >> 16u32) & 0xFF) << 8u32) | (v
        >> 24u32)
}

pub open spec fn rev16_spec(v: u32) -> u32 {
    ((v << 8u32) & 0xFF00_FF00) | ((v >> 8u32) & 0x00FF_00FF)
}

pub open spec fn revsh_spec(v: u32) -> u32 {
    sext16(((v & 0xFF) << 8u32) | ((v >> 8u32) & 0xFF))
}

/// Number of set bits among the low `k` bits of `x`.
pub open spec fn popcount(x: u32, k: nat) -> nat
    decreases k,
{
    if k == 0 {
        0
    } else {
        popcount(x, (k - 1) as nat) + (if bit(x, (k - 1) as u32) { 1nat } else { 0nat })
    }
}

/// Signed division truncated toward zero; 0 for a zero divisor; wraps for
/// INT_MIN / -1.
pub open spec fn sdiv_spec(a: u32, b: u32) -> u32 {
    if b == 0 {
        0
    } else {
        let sa = sval(a);
        let sb = sval(b);
        let ma: nat = if sa < 0 { (-sa) as nat } else { sa as nat };
        let mb: nat = if sb < 0 { (-sb) as nat } else { sb as nat };
        let q = ma / mb;
        if (sa < 0) != (sb < 0) {
            word(-q)
        } else {
            word(q as int)
        }
    }
}

/// SDIV divides the two's-complement values and truncates toward zero:
/// the remainder `a - q * b` is smaller than the divisor in magnitude and
/// is zero or has the dividend's sign. The one quotient that does not fit,
/// INT_MIN / -1, wraps to INT_MIN.
pub proof fn lemma_sdiv_truncates(a: u32, b: u32)
    requires
        b != 0,
    ensures
        !(a == 0x8000_0000 && b == 0xFFFF_FFFF) ==> ({
            let q = sval(sdiv_spec(a, b));
            let r = sval(a) - q * sval(b);
            &&& r * sval(a) >= 0
            &&& (if r < 0 { -r } else { r }) < (if sval(b) < 0 { -sval(b) } else { sval(b) })
        }),
        a == 0x8000_0000 && b == 0xFFFF_FFFF ==> sdiv_spec(a, b) == 0x8000_0000,
{
    let sa = sval(a);
    let sb = sval(b);
    let ma: nat = if sa < 0 { (-sa) as nat } else { sa as nat };
    let mb: nat = if sb < 0 { (-sb) as nat } else { sb as nat };
    let q0 = ma / mb;
    let rm = ma % mb;
    vstd::arithmetic::div_mod::lemma_fundamental_div_mod(ma as int, mb as int);
    vstd::arithmetic::div_mod::lemma_mod_bound(ma as int, mb as int);
    assert(q0 <= ma) by (nonlinear_arith)
        requires
            ma == mb * q0 + rm,
            mb >= 1,
            rm >= 0,
            q0 >= 0,
    ;
    assert(ma <= 0x8000_0000);
    assert(mb == 1 ==> q0 == ma) by (nonlinear_arith)
        requires
            ma == mb * q0 + rm,
            0 <= rm < mb,
    ;
    if (sa < 0) != (sb < 0) {
        assert(sdiv_spec(a, b) == word(-q0));
        if q0 == 0 {
            assert(word(-q0) == 0);
        } else {
            assert((-q0) % 0x1_0000_0000 == 0x1_0000_0000 - q0);
            assert(word(-q0) == 0x1_0000_0000 - q0);
        }
        assert(sval(sdiv_spec(a, b)) == -q0);
        if sa < 0 {
            assert(sa - (-q0) * sb == -rm) by (nonlinear_arith)
                requires
                    sa == -ma,
                    sb == mb,
                    ma == mb * q0 + rm,
            ;
            assert((-rm) * sa >= 0) by (nonlinear_arith)
                requires
                    sa <= 0,
                    rm >= 0,
            ;
        } else {
            assert(sa - (-q0) * sb == rm) by (nonlinear_arith)
                requires
                    sa == ma,
                    sb == -mb,
                    ma == mb * q0 + rm,
            ;
            assert(rm * sa >= 0) by (nonlinear_arith)
                requires
                    sa >= 0,
                    rm >= 0,
            ;
        }
    } else {
        assert(sdiv_spec(a, b) == word(q0 as int));
        if a == 0x8000_0000 && b == 0xFFFF_FFFF {
            assert(q0 == 0x8000_0000);
            assert(word(q0 as int) == 0x8000_0000);
        } else {
            if mb == 1 {
                assert(q0 == ma);
                assert(ma < 0x8000_0000);
            } else {
                assert(q0 * 2 <= ma) by (nonlinear_arith)
                    requires
                        ma == mb * q0 + rm,
                        mb >= 2,
                        rm >= 0,
                        q0 >= 0,
                ;
            }
            assert(q0 < 0x8000_0000);
            assert(word(q0 as int) == q0);
            assert(sval(sdiv_spec(a, b)) == q0);
            if sa < 0 {
                assert(sa - q0 * sb == -rm) by (nonlinear_arith)
                    requires
                        sa == -ma,
                        sb == -mb,
                        ma == mb * q0 + rm,
                ;
                assert((-rm) * sa >= 0) by (nonlinear_arith)
                    requires
                        sa <= 0,
                        rm >= 0,
                ;
            } else {
                assert(sa - q0 * sb == rm) by (nonlinear_arith)
                    requires
                        sa == ma,
                        sb == mb,
                        ma == mb * q0 + rm,
                ;
                assert(rm * sa >= 0) by (nonlinear_arith)
                    requires
                        sa >= 0,
                        rm >= 0,
                ;
            }
        }
    }
}

pub open spec fn udiv_spec(a: u32, b: u32) -> u32 {
    if b == 0 {
        0
    } else {
        a / b
    }
}

/// UDIV is unsigned division rounded down: for a non-zero divisor the
/// quotient times the divisor is at most the dividend and within one
/// divisor of it; a zero divisor gives 0.
pub proof fn lemma_udiv_floor(a: u32, b: u32)
    ensures
        b != 0 ==> udiv_spec(a, b) * b <= a < (udiv_spec(a, b) + 1) * b,
        b == 0 ==> udiv_spec(a, b) == 0,
{
    if b != 0 {
        vstd::arithmetic::div_mod::lemma_fundamental_div_mod(a as int, b as int);
        vstd::arithmetic::div_mod::lemma_mod_bound(a as int, b as int);
        let q: int = udiv_spec(a, b) as int;
        let r: int = (a as int) % (b as int);
        assert(q == (a as int) / (b as int));
        assert(q * b <= a < (q + 1) * b) by (nonlinear_arith)
            requires
                a == b * q + r,
                0 <= r < b,
        ;
    }
}

/// Mask of the low `width` bits (width 1..32).
pub open spec fn low_mask(width: u8) -> u32 {
    if width >= 32 {
        0xFFFF_FFFF
    } else {
        ((1u32 << width) - 1) as u32
    }
}

/// The IT expansion of firstcond/mask: the packed conditions (MSB first) and
/// the instruction count.
pub open spec fn it_expand_spec(cond: u8, mask: u8) -> (u16, u8) {
    let tz: u8 = if mask & 1 != 0 {
        0
    } else if mask & 2 != 0 {
        1
    } else if mask & 4 != 0 {
        2
    } else {
        3
    };
    let n: u8 = (4 - tz) as u8;
    let field: u8 = (!mask >> ((tz + 1) as u8)) & (((1u8 << ((n - 1) as u8)) - 1) as u8);
    let c1: u16 = if n > 1 { it_slot(cond, field, n, 1) } else { 0 };
    let c2: u16 = if n > 2 { it_slot(cond, field, n, 2) } else { 0 };
    let c3: u16 = if n > 3 { it_slot(cond, field, n, 3) } else { 0 };
    (((cond as u16) << 12u16) | c1 | c2 | c3, n)
}

/// Condition of slot k (1..n-1) of an IT block, shifted into place.
pub open spec fn it_slot(cond: u8, field: u8, n: u8, k: u8) -> u16 {
    let then = ((field >> ((n - 1 - k) as u8)) & 1) ^ (cond & 1);
    let eff: u8 = if then == 1 { cond } else { cond ^ 1 };
    (eff as u16) << ((12 - 4 * k) as u16)
}

/// Register and field ranges the decoder produces for each instruction.
pub open spec fn instr_wf(i: Instr) -> bool {
    match i {
        Instr::LslImm { rd, rm, imm } => rd < 8 && rm < 8 && imm < 32,
        Instr::LsrImm { rd, rm, imm } => rd < 8 && rm < 8 && imm < 32,
        Instr::AsrImm { rd, rm, imm } => rd < 8 && rm < 8 && imm < 32,
        Instr::AddReg { rd, rn, rm } => rd < 8 && rn < 8 && rm < 8,
        Instr::SubReg { rd, rn, rm } => rd < 8 && rn < 8 && rm < 8,
        Instr::AddImm3 { rd, rn, imm } => rd < 8 && rn < 8,
        Instr::SubImm3 { rd, rn, imm } => rd < 8 && rn < 8,
        Instr::MovImm { rd, imm } => rd < 8,
        Instr::CmpImm { rn, imm } => rn < 8,
        Instr::AddImm8 { rdn, imm } => rdn < 8,
        Instr::SubImm8 { rdn, imm } => rdn < 8,
        Instr::DataProc { op, rdn, rm } => op < 16 && rdn < 8 && rm < 8,
        Instr::AddHi { rd, rm } => rd < 16 && rm < 16,
        Instr::CmpHi { rn, rm } => rn < 16 && rm < 16,
        Instr::MovHi { rd, rm } => rd < 16 && rm < 16,
        Instr::Bx { rm } => rm < 16,
        Instr::Blx { rm } => rm < 16,
        Instr::LdrLit { rt, imm } => rt < 8,
        Instr::LsReg { op, rt, rn, rm } => op < 8 && rt < 8 && rn < 8 && rm < 8,
        Instr::LsImm { load, byte, rt, rn, imm } => rt < 8 && rn < 8 && imm < 32,
        Instr::LshImm { load, rt, rn, imm } => rt < 8 && rn < 8 && imm < 32,
        Instr::LsSp { load, rt, imm } => rt < 8,
        Instr::Adr { rd, imm } => rd < 8,
        Instr::AddSpImm { rd, imm } => rd < 8,
        Instr::AdjSp { sub, imm } => imm < 128,
        Instr::Stm { rn, list } => rn < 8,
        Instr::Ldm { rn, list } => rn < 8,
        Instr::BCond { cond, off, wide } => cond < 14,
        Instr::Cbz { nonzero, rn, off } => rn < 8,
        Instr::Extend { op, rd, rm } => op < 4 && rd < 8 && rm < 8,
        Instr::Rev { op, rd, rm } => op < 4 && rd < 8 && rm < 8,
        Instr::It { cond, mask } => cond < 16 && 0 < mask < 16,
        Instr::Thumb2(t) => thumb2_wf(t),
        _ => true,
    }
}

pub open spec fn thumb2_wf(t: Thumb2) -> bool {
    match t {
        Thumb2::LdmIA { rn, list, wb } => rn < 16,
        Thumb2::StmIA { rn, list } => rn < 16,
        Thumb2::DpImm { op, rd, rn, set_flags, imm, shifter_c } => rd < 16 && rn < 16,
        Thumb2::LdrLitW { rt, imm } => rt < 16 && imm < 4096,
        Thumb2::Mul { rd, rn, rm, ra, sub } => rd < 16 && rn < 16 && rm < 16 && ra < 16,
        Thumb2::Sbfx { rd, rn, lsbit, width } => rd < 16 && rn < 16 && 1 <= width && lsbit
            + width <= 32,
        Thumb2::Ubfx { rd, rn, lsbit, width } => rd < 16 && rn < 16 && 1 <= width && lsbit
            + width <= 32,
        Thumb2::BfiBfc { rd, rn, lsbit, width } => rd < 16 && rn < 16 && 1 <= width && lsbit
            + width <= 32,
        Thumb2::LdrStrReg { load, size, rt, rn, rm, shift } => rt < 16 && rn < 16 && rm < 16
            && shift < 4,
        Thumb2::LdrhImm { rt, rn, imm } => rt < 16 && rn < 16,
        Thumb2::LdrImm { rt, rn, imm } => rt < 16 && rn < 16,
        Thumb2::StrImm { rt, rn, imm } => rt < 16 && rn < 16,
        Thumb2::LdrbImm { rt, rn, imm } => rt < 16 && rn < 16,
        Thumb2::StrbImm { rt, rn, imm } => rt < 16 && rn < 16,
        Thumb2::StrhImm { rt, rn, imm } => rt < 16 && rn < 16,
        Thumb2::StrbT4 { rt, rn, imm, pre, sub } => rt < 16 && rn < 16,
        Thumb2::LdrbT4 { rt, rn, imm, pre, sub } => rt < 16 && rn < 16,
        Thumb2::LdrStrT4 { load, rt, rn, imm, pre, sub, wb } => rt < 16 && rn < 16,
        Thumb2::LdrhStrhT4 { load, rt, rn, imm, pre, sub, wb } => rt < 16 && rn < 16,
        Thumb2::LdrdStrd { load, rt, rt2, rn, imm, pre, sub, wb } => rt < 16 && rt2 < 16 && rn
            < 16,
        Thumb2::Sdiv { rd, rn, rm } => rd < 16 && rn < 16 && rm < 16,
        Thumb2::Udiv { rd, rn, rm } => rd < 16 && rn < 16 && rm < 16,
        Thumb2::DpReg { op, rd, rn, rm, stype, amount, set_flags } => rd < 16 && rn < 16 && rm
            < 16 && stype < 4 && amount < 32,
        Thumb2::MovShiftReg { rd, rn, rm, stype, set_flags } => rd < 16 && rn < 16 && rm < 16
            && stype < 4,
        Thumb2::Movw { rd, imm16 } => rd < 16,
        Thumb2::Movt { rd, imm16 } => rd < 16,
        Thumb2::Extend { signed, half, rd, rm, rot } => rd < 16 && rm < 16 && rot < 4,
        Thumb2::Clz { rd, rm } => rd < 16 && rm < 16,
        Thumb2::Mrs { rd, sysreg } => rd < 16,
        Thumb2::Subw { rd, rn, imm } => rd < 16 && rn < 16,
        Thumb2::TbbTbh { half, rm } => rm < 16,
        _ => true,
    }
}

} // verus!

verus! {

pub open spec fn with_c(s: Core, c: bool) -> Core {
    Core { c, ..s }
}

/// Result and flags of a low-register data-processing instruction (0x4000 group).
pub open spec fn dataproc_spec(s: Core, op: u8, rdn: u8, rm: u8) -> Core {
    let a = s.r[rdn as int];
    let b = s.r[rm as int];
    let sh = b & 0xFF;
    if op == 0 {
        set_low(set_nz_spec(s, a & b), rdn, a & b)
    } else if op == 1 {
        set_low(set_nz_spec(s, a ^ b), rdn, a ^ b)
    } else if op == 2 {
        let (res, c) = lsl_c_spec(a, sh, s.c);
        set_low(set_nz_spec(with_c(s, c), res), rdn, res)
    } else if op == 3 {
        let (res, c) = if sh == 0 { (a, s.c) } else { lsr_c_spec(a, sh) };
        set_low(set_nz_spec(with_c(s, c), res), rdn, res)
    } else if op == 4 {
        let (res, c) = if sh == 0 { (a, s.c) } else { asr_c_spec(a, sh) };
        set_low(set_nz_spec(with_c(s, c), res), rdn, res)
    } else if op == 5 {
        let (res, c, v) = adc_spec(a, b, s.c);
        set_low(set_nzcv_spec(s, res, c, v), rdn, res)
    } else if op == 6 {
        let (res, c, v) = sbc_spec(a, b, s.c);
        set_low(set_nzcv_spec(s, res, c, v), rdn, res)
    } else if op == 7 {
        let (res, c) = if sh == 0 {
            (a, s.c)
        } else if sh & 31 == 0 {
            (a, a >> 31u32 != 0)
        } else {
            let r = ror_spec(a, sh & 31);
            (r, r >> 31u32 != 0)
        };
        set_low(set_nz_spec(with_c(s, c), res), rdn, res)
    } else if op == 8 {
        set_nz_spec(s, a & b)
    } else if op == 9 {
        let (res, c, v) = sbc_spec(0, b, true);
        set_low(set_nzcv_spec(s, res, c, v), rdn, res)
    } else if op == 10 {
        let (res, c, v) = sbc_spec(a, b, true);
        set_nzcv_spec(s, res, c, v)
    } else if op == 11 {
        let (res, c, v) = adc_spec(a, b, false);
        set_nzcv_spec(s, res, c, v)
    } else if op == 12 {
        set_low(set_nz_spec(s, a | b), rdn, a | b)
    } else if op == 13 {
        set_low(set_nz_spec(s, wmul(a, b)), rdn, wmul(a, b))
    } else if op == 14 {
        set_low(set_nz_spec(s, a & !b), rdn, a & !b)
    } else {
        set_low(set_nz_spec(s, !b), rdn, !b)
    }
}

/// Effect of the register/flag-only 16-bit instructions.
pub open spec fn alu16_spec(s: Core, i: Instr) -> Core {
    match i {
        Instr::LslImm { rd, rm, imm } => {
            let (res, c) = lsl_c_spec(s.r[rm as int], imm as u32, s.c);
            advance(set_low(set_nz_spec(with_c(s, c), res), rd, res), 2)
        },
        Instr::LsrImm { rd, rm, imm } => {
            let (res, c) = lsr_c_spec(s.r[rm as int], imm as u32);
            advance(set_low(set_nz_spec(with_c(s, c), res), rd, res), 2)
        },
        Instr::AsrImm { rd, rm, imm } => {
            let (res, c) = asr_c_spec(s.r[rm as int], imm as u32);
            advance(set_low(set_nz_spec(with_c(s, c), res), rd, res), 2)
        },
        Instr::AddReg { rd, rn, rm } => {
            let (res, c, v) = adc_spec(s.r[rn as int], s.r[rm as int], false);
            advance(set_low(set_nzcv_spec(s, res, c, v), rd, res), 2)
        },
        Instr::SubReg { rd, rn, rm } => {
            let (res, c, v) = sbc_spec(s.r[rn as int], s.r[rm as int], true);
            advance(set_low(set_nzcv_spec(s, res, c, v), rd, res), 2)
        },
        Instr::AddImm3 { rd, rn, imm } => {
            let (res, c, v) = adc_spec(s.r[rn as int], imm as u32, false);
            advance(set_low(set_nzcv_spec(s, res, c, v), rd, res), 2)
        },
        Instr::SubImm3 { rd, rn, imm } => {
            let (res, c, v) = sbc_spec(s.r[rn as int], imm as u32, true);
            advance(set_low(set_nzcv_spec(s, res, c, v), rd, res), 2)
        },
        Instr::MovImm { rd, imm } => advance(set_low(set_nz_spec(s, imm as u32), rd, imm as u32), 2),
        Instr::CmpImm { rn, imm } => {
            let (res, c, v) = sbc_spec(s.r[rn as int], imm as u32, true);
            advance(set_nzcv_spec(s, res, c, v), 2)
        },
        Instr::AddImm8 { rdn, imm } => {
            let (res, c, v) = adc_spec(s.r[rdn as int], imm as u32, false);
            advance(set_low(set_nzcv_spec(s, res, c, v), rdn, res), 2)
        },
        Instr::SubImm8 { rdn, imm } => {
            let (res, c, v) = sbc_spec(s.r[rdn as int], imm as u32, true);
            advance(set_low(set_nzcv_spec(s, res, c, v), rdn, res), 2)
        },
        Instr::DataProc { op, rdn, rm } => advance(dataproc_spec(s, op, rdn, rm), 2),
        Instr::AddHi { rd, rm } => {
            let s1 = set_reg_spec(s, rd, wadd(reg_spec(s, rd), reg_spec(s, rm)));
            if rd != 15 { advance(s1, 2) } else { s1 }
        },
        Instr::CmpHi { rn, rm } => {
            let (res, c, v) = sbc_spec(reg_spec(s, rn), reg_spec(s, rm), true);
            advance(set_nzcv_spec(s, res, c, v), 2)
        },
        Instr::MovHi { rd, rm } => {
            let s1 = set_reg_spec(s, rd, reg_spec(s, rm));
            if rd != 15 { advance(s1, 2) } else { s1 }
        },
        Instr::Bx { rm } => Core { pc: reg_spec(s, rm) & 0xFFFF_FFFE, ..s },
        Instr::Blx { rm } => Core { lr: wadd(s.pc, 2) | 1, pc: reg_spec(s, rm) & 0xFFFF_FFFE, ..s },
        Instr::Adr { rd, imm } => advance(
            set_low(s, rd, wadd(wadd(s.pc, 4) & 0xFFFF_FFFC, ((imm as u32) * 4) as u32)),
            2,
        ),
        Instr::AddSpImm { rd, imm } => advance(set_low(s, rd, wadd(s.sp, ((imm as u32) * 4) as u32)), 2),
        Instr::AdjSp { sub, imm } => advance(
            Core {
                sp: if sub { wsub(s.sp, ((imm as u32) * 4) as u32) } else { wadd(s.sp, ((imm as u32) * 4) as u32) },
                ..s
            },
            2,
        ),
        Instr::B { off } => Core { pc: branch_target(s.pc, off), ..s },
        Instr::BCond { cond, off, wide } => if cond_true_spec(s, cond) {
            Core { pc: branch_target(s.pc, off), ..s }
        } else {
            advance(s, if wide { 4 } else { 2 })
        },
        Instr::Cbz { nonzero, rn, off } => if (s.r[rn as int] != 0) == nonzero {
            Core { pc: branch_target(s.pc, off), ..s }
        } else {
            advance(s, 2)
        },
        Instr::Bl { off } => Core { lr: wadd(s.pc, 4) | 1, pc: branch_target(s.pc, off), ..s },
        Instr::Extend { op, rd, rm } => {
            let v = s.r[rm as int];
            let res = if op == 0 {
                sext16(v)
            } else if op == 1 {
                sext8(v)
            } else if op == 2 {
                v & 0xFFFF
            } else {
                v & 0xFF
            };
            advance(set_low(s, rd, res), 2)
        },
        Instr::Rev { op, rd, rm } => {
            let v = s.r[rm as int];
            let res = if op == 0 {
                rev_spec(v)
            } else if op == 1 {
                rev16_spec(v)
            } else {
                revsh_spec(v)
            };
            advance(set_low(s, rd, res), 2)
        },
        Instr::It { cond, mask } => {
            let (conds, n) = it_expand_spec(cond, mask);
            advance(Core { it_conds: conds, it_left: n, ..s }, 2)
        },
        _ => advance(s, 2),
    }
}

/// Result and flags of a modified-immediate data-processing instruction.
pub open spec fn dpimm_spec(
    s: Core,
    op: DpOp,
    rd: u8,
    rn: u8,
    set_flags: bool,
    imm: u32,
    shifter_c: Option<bool>,
) -> Core {
    let lhs = if rn == 15 && op == DpOp::Orr { 0 } else { reg_spec(s, rn) };
    let lc = match shifter_c {
        Some(c) => c,
        None => s.c,
    };
    let (res, c, v) = match op {
        DpOp::And => (lhs & imm, lc, false),
        DpOp::Orr => (lhs | imm, lc, false),
        DpOp::Eor => (lhs ^ imm, lc, false),
        DpOp::Bic => (lhs & !imm, lc, false),
        DpOp::Add => adc_spec(lhs, imm, false),
        DpOp::Sub => sbc_spec(lhs, imm, true),
        DpOp::Rsb => sbc_spec(imm, lhs, true),
    };
    let s1 = if rd != 15 { set_reg_spec(s, rd, res) } else { s };
    let s2 = if set_flags { set_nzcv_spec(s1, res, c, v) } else { s1 };
    advance(s2, 4)
}

/// Result and flags of a shifted-register data-processing instruction.
pub open spec fn dpreg_spec(
    s: Core,
    op: DpRegOp,
    rd: u8,
    rn: u8,
    rm: u8,
    stype: u8,
    amount: u8,
    set_flags: bool,
) -> Core {
    let (sh, shc) = shift_c_spec(reg_spec(s, rm), stype, amount, s.c);
    let lhs = if rn == 15 && (op == DpRegOp::Orr || op == DpRegOp::Orn) {
        0
    } else {
        reg_spec(s, rn)
    };
    let (res, c, v) = match op {
        DpRegOp::And => (lhs & sh, shc, false),
        DpRegOp::Bic => (lhs & !sh, shc, false),
        DpRegOp::Orr => (lhs | sh, shc, false),
        DpRegOp::Orn => (lhs | !sh, shc, false),
        DpRegOp::Eor => (lhs ^ sh, shc, false),
        DpRegOp::Add => adc_spec(reg_spec(s, rn), sh, false),
        DpRegOp::Adc => adc_spec(reg_spec(s, rn), sh, s.c),
        DpRegOp::Sub => sbc_spec(reg_spec(s, rn), sh, true),
        DpRegOp::Sbc => sbc_spec(reg_spec(s, rn), sh, s.c),
    };
    let s1 = if rd != 15 { set_reg_spec(s, rd, res) } else { s };
    let s2 = if set_flags { set_nzcv_spec(s1, res, c, v) } else { s1 };
    advance(s2, 4)
}

/// Effect of the register/flag-only Thumb-2 instructions.
pub open spec fn alu32_spec(s: Core, t: Thumb2) -> Core {
    match t {
        Thumb2::DpImm { op, rd, rn, set_flags, imm, shifter_c } => dpimm_spec(
            s,
            op,
            rd,
            rn,
            set_flags,
            imm,
            shifter_c,
        ),
        Thumb2::DpReg { op, rd, rn, rm, stype, amount, set_flags } => dpreg_spec(
            s,
            op,
            rd,
            rn,
            rm,
            stype,
            amount,
            set_flags,
        ),
        Thumb2::MovShiftReg { rd, rn, rm, stype, set_flags } => {
            let (res, c) = shift_reg_spec(reg_spec(s, rn), stype, reg_spec(s, rm) & 0xFF, s.c);
            let s1 = set_reg_spec(s, rd, res);
            let s2 = if set_flags { with_c(set_nz_spec(s1, res), c) } else { s1 };
            advance(s2, 4)
        },
        Thumb2::Movw { rd, imm16 } => advance(set_reg_spec(s, rd, imm16 as u32), 4),
        Thumb2::Movt { rd, imm16 } => advance(
            set_reg_spec(s, rd, (reg_spec(s, rd) & 0xFFFF) | ((imm16 as u32) << 16u32)),
            4,
        ),
        Thumb2::B { off } => Core { pc: branch_target(s.pc, off), ..s },
        Thumb2::Mul { rd, rn, rm, ra, sub } => {
            let prod = wmul(reg_spec(s, rn), reg_spec(s, rm));
            let acc = reg_spec(s, ra);
            let res = if ra == 15 {
                prod
            } else if sub {
                wsub(acc, prod)
            } else {
                wadd(prod, acc)
            };
            advance(set_reg_spec(s, rd, res), 4)
        },
        Thumb2::Extend { signed, half, rd, rm, rot } => {
            let v0 = ror_spec(reg_spec(s, rm), ((rot as u32) * 8) as u32);
            let v1 = if half { v0 & 0xFFFF } else { v0 & 0xFF };
            let v = if signed {
                if half { sext16(v1) } else { sext8(v1) }
            } else {
                v1
            };
            advance(set_reg_spec(s, rd, v), 4)
        },
        Thumb2::Sdiv { rd, rn, rm } => advance(
            set_reg_spec(s, rd, sdiv_spec(reg_spec(s, rn), reg_spec(s, rm))),
            4,
        ),
        Thumb2::Udiv { rd, rn, rm } => advance(
            set_reg_spec(s, rd, udiv_spec(reg_spec(s, rn), reg_spec(s, rm))),
            4,
        ),
        Thumb2::Sbfx { rd, rn, lsbit, width } => {
            let field = (reg_spec(s, rn) >> (lsbit as u32)) & low_mask(width);
            let sign = 1u32 << ((width - 1) as u32);
            advance(set_reg_spec(s, rd, wsub(field ^ sign, sign)), 4)
        },
        Thumb2::Ubfx { rd, rn, lsbit, width } => advance(
            set_reg_spec(s, rd, (reg_spec(s, rn) >> (lsbit as u32)) & low_mask(width)),
            4,
        ),
        Thumb2::Clz { rd, rm } => advance(set_reg_spec(s, rd, reg_spec(s, rm).leading_zeros()), 4),
        Thumb2::Mrs { rd, sysreg } => {
            let v = if sysreg == 8 || sysreg == 9 {
                s.sp
            } else if sysreg == 3 {
                0x0100_0000
            } else {
                0
            };
            advance(set_reg_spec(s, rd, v), 4)
        },
        Thumb2::BfiBfc { rd, rn, lsbit, width } => {
            let mask = low_mask(width);
            let field = if rn == 15 { 0 } else { reg_spec(s, rn) & mask };
            let v = (reg_spec(s, rd) & !(mask << (lsbit as u32))) | (field << (lsbit as u32));
            advance(set_reg_spec(s, rd, v), 4)
        },
        Thumb2::Subw { rd, rn, imm } => advance(set_reg_spec(s, rd, wsub(reg_spec(s, rn), imm)), 4),
        _ => s,
    }
}

/// The instructions that touch the bus.
pub open spec fn is_mem(i: Instr) -> bool {
    match i {
        Instr::LdrLit { .. } | Instr::LsReg { .. } | Instr::LsImm { .. } | Instr::LshImm { .. }
        | Instr::LsSp { .. } | Instr::Push { .. } | Instr::Pop { .. } | Instr::Stm { .. }
        | Instr::Ldm { .. } => true,
        Instr::Thumb2(t) => is_mem32(t),
        _ => false,
    }
}

pub open spec fn is_mem32(t: Thumb2) -> bool {
    match t {
        Thumb2::Stmdb { .. } | Thumb2::Ldmia { .. } | Thumb2::LdmIA { .. } | Thumb2::StmIA { .. }
        | Thumb2::LdrLitW { .. } | Thumb2::LdrhImm { .. } | Thumb2::LdrImm { .. }
        | Thumb2::StrImm { .. } | Thumb2::LdrbImm { .. } | Thumb2::StrbImm { .. }
        | Thumb2::StrhImm { .. } | Thumb2::StrbT4 { .. } | Thumb2::LdrbT4 { .. }
        | Thumb2::LdrStrT4 { .. } | Thumb2::LdrhStrhT4 { .. } | Thumb2::LdrdStrd { .. }
        | Thumb2::TbbTbh { .. } | Thumb2::LdrStrReg { .. } => true,
        _ => false,
    }
}

/// Stores of `vals[i]` for each set bit i in `i .. n` of `list`, ascending
/// from `addr`; stops at the first fault. Returns the outcome, the bus and
/// the next address.
pub open spec fn store_list_spec(
    b: BusView,
    vals: Seq<u32>,
    list: u32,
    i: nat,
    n: nat,
    addr: u32,
) -> (Result<(), EmuError>, BusView, u32)
    decreases n - i,
{
    if i >= n {
        (Ok(()), b, addr)
    } else if bit(list, i as u32) {
        let (r, b2) = write_spec(b, addr, vals[i as int], 4);
        match r {
            Err(e) => (Err(e), b2, addr),
            Ok(_) => store_list_spec(b2, vals, list, i + 1, n, wadd(addr, 4)),
        }
    } else {
        store_list_spec(b, vals, list, i + 1, n, addr)
    }
}

/// Word loads into low registers for each set bit i in `i .. 8` of `list`,
/// ascending from `addr`; stops at the first fault.
pub open spec fn load_low_spec(b: BusView, regs: Seq<u32>, list: u32, i: nat, addr: u32) -> (
    Result<(), EmuError>,
    Seq<u32>,
    u32,
)
    decreases 8 - i,
{
    if i >= 8 {
        (Ok(()), regs, addr)
    } else if bit(list, i as u32) {
        match read_spec(b, addr, 4) {
            Err(e) => (Err(e), regs, addr),
            Ok(v) => load_low_spec(b, regs.update(i as int, v), list, i + 1, wadd(addr, 4)),
        }
    } else {
        load_low_spec(b, regs, list, i + 1, addr)
    }
}

/// Word loads for each set bit i in `i .. 16` of `list` through the
/// register-write rules; bit 15 captures the new pc (bit 0 cleared).
pub open spec fn load_core_spec(
    b: BusView,
    s: Core,
    list: u32,
    i: nat,
    addr: u32,
    new_pc: Option<u32>,
) -> (Result<(), EmuError>, Core, u32, Option<u32>)
    decreases 16 - i,
{
    if i >= 16 {
        (Ok(()), s, addr, new_pc)
    } else if bit(list, i as u32) {
        match read_spec(b, addr, 4) {
            Err(e) => (Err(e), s, addr, new_pc),
            Ok(v) => if i == 15 {
                load_core_spec(b, s, list, i + 1, wadd(addr, 4), Some(v & 0xFFFF_FFFE))
            } else {
                load_core_spec(b, set_reg_spec(s, i as u8, v), list, i + 1, wadd(addr, 4), new_pc)
            },
        }
    } else {
        load_core_spec(b, s, list, i + 1, addr, new_pc)
    }
}

/// The values of r0..r14 as read through `reg_spec`.
pub open spec fn reg_values(s: Core) -> Seq<u32> {
    Seq::new(15, |i: int| reg_spec(s, i as u8))
}

/// Store `val` (size bytes) then continue with `next` on success.
pub open spec fn store_then(s: Core, b: BusView, addr: u32, val: u32, size: u8, next: Core) -> Outcome {
    let (r, b2) = write_spec(b, addr, val, size);
    match r {
        Err(e) => (Err(e), s, b2),
        Ok(_) => (Ok(()), next, b2),
    }
}

/// Load `size` bytes (zero-extended) into a low register and advance.
pub open spec fn load_low_then(s: Core, b: BusView, addr: u32, size: u8, rt: u8, len: u32) -> Outcome {
    match read_spec(b, addr, size) {
        Err(e) => (Err(e), s, b),
        Ok(v) => (Ok(()), advance(set_low(s, rt, trunc(v, size)), len), b),
    }
}

/// Load through `set_reg_spec` and advance.
pub open spec fn load_reg_then(s: Core, b: BusView, addr: u32, size: u8, rt: u8, len: u32) -> Outcome {
    match read_spec(b, addr, size) {
        Err(e) => (Err(e), s, b),
        Ok(v) => (Ok(()), advance(set_reg_spec(s, rt, trunc(v, size)), len), b),
    }
}

/// A read value as the sized accessor returns it, zero-extended.
pub open spec fn trunc(v: u32, size: u8) -> u32 {
    if size == 1 {
        (v as u8) as u32
    } else if size == 2 {
        (v as u16) as u32
    } else {
        v
    }
}

/// Effect of the 16-bit loads and stores.
pub open spec fn mem16_spec(s: Core, b: BusView, i: Instr) -> Outcome {
    match i {
        Instr::LdrLit { rt, imm } => load_low_then(
            s,
            b,
            wadd(wadd(s.pc, 4) & 0xFFFF_FFFC, ((imm as u32) * 4) as u32),
            4,
            rt,
            2,
        ),
        Instr::LsReg { op, rt, rn, rm } => {
            let addr = wadd(s.r[rn as int], s.r[rm as int]);
            let x = s.r[rt as int];
            if op == 0 {
                store_then(s, b, addr, x, 4, advance(s, 2))
            } else if op == 1 {
                store_then(s, b, addr, (x as u16) as u32, 2, advance(s, 2))
            } else if op == 2 {
                store_then(s, b, addr, (x as u8) as u32, 1, advance(s, 2))
            } else if op == 3 {
                match read_spec(b, addr, 1) {
                    Err(e) => (Err(e), s, b),
                    Ok(v) => (Ok(()), advance(set_low(s, rt, sext8(trunc(v, 1))), 2), b),
                }
            } else if op == 4 {
                load_low_then(s, b, addr, 4, rt, 2)
            } else if op == 5 {
                load_low_then(s, b, addr, 2, rt, 2)
            } else if op == 6 {
                load_low_then(s, b, addr, 1, rt, 2)
            } else {
                match read_spec(b, addr, 2) {
                    Err(e) => (Err(e), s, b),
                    Ok(v) => (Ok(()), advance(set_low(s, rt, sext16(trunc(v, 2))), 2), b),
                }
            }
        },
        Instr::LsImm { load, byte, rt, rn, imm } => {
            let addr = wadd(s.r[rn as int], ((imm as u32) * (if byte { 1u32 } else { 4u32 })) as u32);
            let x = s.r[rt as int];
            if !load && !byte {
                store_then(s, b, addr, x, 4, advance(s, 2))
            } else if !load {
                store_then(s, b, addr, (x as u8) as u32, 1, advance(s, 2))
            } else if !byte {
                load_low_then(s, b, addr, 4, rt, 2)
            } else {
                load_low_then(s, b, addr, 1, rt, 2)
            }
        },
        Instr::LshImm { load, rt, rn, imm } => {
            let addr = wadd(s.r[rn as int], ((imm as u32) * 2) as u32);
            if load {
                load_low_then(s, b, addr, 2, rt, 2)
            } else {
                store_then(s, b, addr, (s.r[rt as int] as u16) as u32, 2, advance(s, 2))
            }
        },
        Instr::LsSp { load, rt, imm } => {
            let addr = wadd(s.sp, ((imm as u32) * 4) as u32);
            if load {
                load_low_then(s, b, addr, 4, rt, 2)
            } else {
                store_then(s, b, addr, s.r[rt as int], 4, advance(s, 2))
            }
        },
        Instr::Push { list, lr } => {
            let count = popcount(list as u32, 8) + (if lr { 1nat } else { 0nat });
            let addr0 = wsub(s.sp, (4 * count) as u32);
            let s1 = Core { sp: addr0, ..s };
            let (r1, b1, a1) = store_list_spec(b, s.r, list as u32, 0, 8, addr0);
            match r1 {
                Err(e) => (Err(e), s1, b1),
                Ok(_) => if lr {
                    store_then(s1, b1, a1, s.lr, 4, advance(s1, 2))
                } else {
                    (Ok(()), advance(s1, 2), b1)
                },
            }
        },
        Instr::Pop { list, pc } => {
            let (r1, regs, a1) = load_low_spec(b, s.r, list as u32, 0, s.sp);
            let s1 = Core { r: regs, ..s };
            match r1 {
                Err(e) => (Err(e), s1, b),
                Ok(_) => if pc {
                    match read_spec(b, a1, 4) {
                        Err(e) => (Err(e), s1, b),
                        Ok(v) => (Ok(()), Core { sp: wadd(a1, 4), pc: v & 0xFFFF_FFFE, ..s1 }, b),
                    }
                } else {
                    (Ok(()), Core { sp: a1, pc: wadd(s.pc, 2), ..s1 }, b)
                },
            }
        },
        Instr::Stm { rn, list } => {
            let (r1, b1, a1) = store_list_spec(b, s.r, list as u32, 0, 8, s.r[rn as int]);
            match r1 {
                Err(e) => (Err(e), s, b1),
                Ok(_) => (Ok(()), advance(set_low(s, rn, a1), 2), b1),
            }
        },
        Instr::Ldm { rn, list } => {
            let (r1, regs, a1) = load_low_spec(b, s.r, list as u32, 0, s.r[rn as int]);
            let s1 = Core { r: regs, ..s };
            match r1 {
                Err(e) => (Err(e), s1, b),
                Ok(_) => (
                    Ok(()),
                    advance(if !bit(list as u32, rn as u32) { set_low(s1, rn, a1) } else { s1 }, 2),
                    b,
                ),
            }
        },
        _ => (Ok(()), s, b),
    }
}

/// Effect of the 32-bit loads and stores.
pub open spec fn mem32_spec(s: Core, b: BusView, t: Thumb2) -> Outcome {
    match t {
        Thumb2::Stmdb { list } => {
            let count = popcount(list as u32, 16);
            let s1 = Core { sp: wsub(s.sp, (4 * count) as u32), ..s };
            let (r1, b1, a1) = store_list_spec(b, reg_values(s1), list as u32, 0, 15, s1.sp);
            match r1 {
                Err(e) => (Err(e), s1, b1),
                Ok(_) => (Ok(()), advance(s1, 4), b1),
            }
        },
        Thumb2::Ldmia { list } => {
            let (r1, s1, a1, np) = load_core_spec(b, s, list as u32, 0, s.sp, None);
            match r1 {
                Err(e) => (Err(e), s1, b),
                Ok(_) => {
                    let s2 = Core { sp: a1, ..s1 };
                    (
                        Ok(()),
                        Core {
                            pc: match np {
                                Some(p) => p,
                                None => wadd(s2.pc, 4),
                            },
                            ..s2
                        },
                        b,
                    )
                },
            }
        },
        Thumb2::LdmIA { rn, list, wb } => {
            let (r1, s1, a1, np) = load_core_spec(b, s, list as u32, 0, reg_spec(s, rn), None);
            match r1 {
                Err(e) => (Err(e), s1, b),
                Ok(_) => {
                    let s2 = if wb { set_reg_spec(s1, rn, a1) } else { s1 };
                    (
                        Ok(()),
                        Core {
                            pc: match np {
                                Some(p) => p,
                                None => wadd(s2.pc, 4),
                            },
                            ..s2
                        },
                        b,
                    )
                },
            }
        },
        Thumb2::StmIA { rn, list } => {
            let (r1, b1, a1) = store_list_spec(b, reg_values(s), list as u32, 0, 15, reg_spec(s, rn));
            match r1 {
                Err(e) => (Err(e), s, b1),
                Ok(_) => (Ok(()), advance(s, 4), b1),
            }
        },
        Thumb2::LdrLitW { rt, imm } => load_reg_then(
            s,
            b,
            wadd(wadd(s.pc, 4) & 0xFFFF_FFFC, imm as u32),
            4,
            rt,
            4,
        ),
        Thumb2::LdrhImm { rt, rn, imm } => load_reg_then(s, b, wadd(reg_spec(s, rn), imm as u32), 2, rt, 4),
        Thumb2::LdrImm { rt, rn, imm } => load_reg_then(s, b, wadd(reg_spec(s, rn), imm as u32), 4, rt, 4),
        Thumb2::LdrbImm { rt, rn, imm } => load_reg_then(s, b, wadd(reg_spec(s, rn), imm as u32), 1, rt, 4),
        Thumb2::StrImm { rt, rn, imm } => store_then(
            s,
            b,
            wadd(reg_spec(s, rn), imm as u32),
            reg_spec(s, rt),
            4,
            advance(s, 4),
        ),
        Thumb2::StrbImm { rt, rn, imm } => store_then(
            s,
            b,
            wadd(reg_spec(s, rn), imm as u32),
            ((reg_spec(s, rt) & 0xFF) as u8) as u32,
            1,
            advance(s, 4),
        ),
        Thumb2::StrhImm { rt, rn, imm } => store_then(
            s,
            b,
            wadd(reg_spec(s, rn), imm as u32),
            ((reg_spec(s, rt) & 0xFFFF) as u16) as u32,
            2,
            advance(s, 4),
        ),
        Thumb2::StrbT4 { rt, rn, imm, pre, sub } => {
            let base = reg_spec(s, rn);
            let addr = if sub { wsub(base, imm as u32) } else { wadd(base, imm as u32) };
            store_then(
                s,
                b,
                if pre { addr } else { base },
                ((reg_spec(s, rt) & 0xFF) as u8) as u32,
                1,
                advance(set_reg_spec(s, rn, addr), 4),
            )
        },
        Thumb2::LdrbT4 { rt, rn, imm, pre, sub } => {
            let base = reg_spec(s, rn);
            let addr = if sub { wsub(base, imm as u32) } else { wadd(base, imm as u32) };
            match read_spec(b, if pre { addr } else { base }, 1) {
                Err(e) => (Err(e), s, b),
                Ok(v) => (
                    Ok(()),
                    advance(set_reg_spec(set_reg_spec(s, rn, addr), rt, trunc(v, 1)), 4),
                    b,
                ),
            }
        },
        Thumb2::LdrStrT4 { load, rt, rn, imm, pre, sub, wb } => {
            let base = reg_spec(s, rn);
            let oa = if sub { wsub(base, imm as u32) } else { wadd(base, imm as u32) };
            let addr = if pre { oa } else { base };
            let finish = |s1: Core, br: Option<u32>|
                {
                    let s2 = if wb { set_reg_spec(s1, rn, oa) } else { s1 };
                    Core {
                        pc: match br {
                            Some(p) => p,
                            None => wadd(s2.pc, 4),
                        },
                        ..s2
                    }
                };
            if load {
                match read_spec(b, addr, 4) {
                    Err(e) => (Err(e), s, b),
                    Ok(v) => if rt == 15 {
                        (Ok(()), finish(s, Some(v & 0xFFFF_FFFE)), b)
                    } else {
                        (Ok(()), finish(set_reg_spec(s, rt, v), None), b)
                    },
                }
            } else {
                store_then(s, b, addr, reg_spec(s, rt), 4, finish(s, None))
            }
        },
        Thumb2::LdrhStrhT4 { load, rt, rn, imm, pre, sub, wb } => {
            let base = reg_spec(s, rn);
            let oa = if sub { wsub(base, imm as u32) } else { wadd(base, imm as u32) };
            let addr = if pre { oa } else { base };
            let finish = |s1: Core| advance(if wb { set_reg_spec(s1, rn, oa) } else { s1 }, 4);
            if load {
                match read_spec(b, addr, 2) {
                    Err(e) => (Err(e), s, b),
                    Ok(v) => (Ok(()), finish(set_reg_spec(s, rt, trunc(v, 2))), b),
                }
            } else {
                store_then(s, b, addr, ((reg_spec(s, rt) & 0xFFFF) as u16) as u32, 2, finish(s))
            }
        },
        Thumb2::LdrdStrd { load, rt, rt2, rn, imm, pre, sub, wb } => {
            let base = reg_spec(s, rn);
            let off = (imm as u32) << 2u32;
            let moved = if sub { wsub(base, off) } else { wadd(base, off) };
            let addr = if pre { moved } else { base };
            let finish = |s1: Core| advance(if wb || !pre { set_reg_spec(s1, rn, moved) } else { s1 }, 4);
            if load {
                match read_spec(b, addr, 4) {
                    Err(e) => (Err(e), s, b),
                    Ok(v1) => {
                        let s1 = set_reg_spec(s, rt, v1);
                        match read_spec(b, wadd(addr, 4), 4) {
                            Err(e) => (Err(e), s1, b),
                            Ok(v2) => (Ok(()), finish(set_reg_spec(s1, rt2, v2)), b),
                        }
                    },
                }
            } else {
                let (r1, b1) = write_spec(b, addr, reg_spec(s, rt), 4);
                match r1 {
                    Err(e) => (Err(e), s, b1),
                    Ok(_) => store_then(s, b1, wadd(addr, 4), reg_spec(s, rt2), 4, finish(s)),
                }
            }
        },
        Thumb2::TbbTbh { half, rm } => {
            let base = wadd(s.pc, 4) & 0xFFFF_FFFC;
            let idx = reg_spec(s, rm);
            let (r, entry) = if half {
                match read_spec(b, wadd(base, wmul(idx, 2)), 2) {
                    Err(e) => (Err::<(), EmuError>(e), 0u32),
                    Ok(v) => (Ok::<(), EmuError>(()), trunc(v, 2)),
                }
            } else {
                match read_spec(b, wadd(base, idx), 1) {
                    Err(e) => (Err::<(), EmuError>(e), 0u32),
                    Ok(v) => (Ok::<(), EmuError>(()), trunc(v, 1)),
                }
            };
            match r {
                Err(e) => (Err(e), s, b),
                Ok(_) => (Ok(()), Core { pc: wadd(base, wmul(entry, 2)), ..s }, b),
            }
        },
        Thumb2::LdrStrReg { load, size, rt, rn, rm, shift } => {
            let addr = wadd(reg_spec(s, rn), reg_spec(s, rm) << (shift as u32));
            let sz: u8 = if size == 1 { 1 } else if size == 2 { 2 } else { 4 };
            if load {
                load_reg_then(s, b, addr, sz, rt, 4)
            } else {
                let x = reg_spec(s, rt);
                let val = if sz == 1 {
                    ((x & 0xFF) as u8) as u32
                } else if sz == 2 {
                    ((x & 0xFFFF) as u16) as u32
                } else {
                    x
                };
                store_then(s, b, addr, val, sz, advance(s, 4))
            }
        },
        _ => (Ok(()), s, b),
    }
}

/// Effect of executing a decoded instruction.
pub open spec fn exec_spec(s: Core, b: BusView, i: Instr) -> Outcome {
    if is_mem(i) {
        match i {
            Instr::Thumb2(t) => mem32_spec(s, b, t),
            _ => mem16_spec(s, b, i),
        }
    } else {
        match i {
            Instr::Thumb2(t) => (Ok(()), alu32_spec(s, t), b),
            _ => (Ok(()), alu16_spec(s, i), b),
        }
    }
}


/// Byte offset (from pc + 4) of a 32-bit BL: S:I1:I2:imm10:imm11:0,
/// sign-extended, with I1 = NOT(J1 XOR S) and I2 = NOT(J2 XOR S).
pub open spec fn bl_offset(hw: u16, hw2: u16) -> i32 {
    let s = ((hw >> 10u16) % 2) as int;
    let j1 = ((hw2 >> 13u16) % 2) as int;
    let j2 = ((hw2 >> 11u16) % 2) as int;
    let i1: int = if j1 == s { 1 } else { 0 };
    let i2: int = if j2 == s { 1 } else { 0 };
    let imm10 = (hw % 1024) as int;
    let imm11 = (hw2 % 2048) as int;
    (i1 * 0x800000 + i2 * 0x400000 + imm10 * 0x1000 + imm11 * 2 - s * 0x1000000) as i32
}

/// The halfword prefixes of a 32-bit instruction (0b11101, 0b11110, 0b11111).
pub open spec fn is_32bit_prefix(hw: u16) -> bool {
    hw >> 11u16 == 0x1D || hw >> 11u16 == 0x1E || hw >> 11u16 == 0x1F
}

/// The instruction at `pc` with its length, or the fault of fetching or
/// decoding it.
pub open spec fn fetch_spec(b: BusView, pc: u32) -> Result<(Instr, u32), EmuError> {
    match read_spec(b, pc, 2) {
        Err(e) => Err(e),
        Ok(v) => {
            let hw = v as u16;
            if is_32bit_prefix(hw) {
                match read_spec(b, wadd(pc, 2), 2) {
                    Err(e) => Err(e),
                    Ok(v2) => {
                        let hw2 = v2 as u16;
                        if hw >> 11u16 == 0x1E && hw2 & 0xD000 == 0xD000 {
                            Ok((Instr::Bl { off: bl_offset(hw, hw2) }, 4))
                        } else {
                            match decode32_spec(hw, hw2) {
                                Some(i) => Ok((i, 4)),
                                None => Err(EmuError::Undefined { pc, instr: hw }),
                            }
                        }
                    },
                }
            } else {
                match decode_spec(hw) {
                    Some(i) => Ok((i, 2)),
                    None => Err(EmuError::Undefined { pc, instr: hw }),
                }
            }
        },
    }
}

/// One fetch/decode/execute step. A decoded instruction ticks SysTick once;
/// inside an IT block it consumes one condition and, when that condition
/// fails, only advances pc.
pub open spec fn step_spec(s: Core, b: BusView) -> Outcome {
    let b0 = begin_step_spec(b);
    match fetch_spec(b0, s.pc) {
        Err(e) => (Err(e), s, b0),
        Ok((i, len)) => {
            let b1 = tick_spec(b0);
            if s.it_left > 0 {
                let c = ((s.it_conds >> 12u16) & 0xF) as u8;
                let s1 = Core {
                    it_conds: s.it_conds << 4u16,
                    it_left: (s.it_left - 1) as u8,
                    ..s
                };
                if !cond_passes_spec(s1, c) {
                    (Ok(()), advance(s1, len), b1)
                } else {
                    exec_spec(s1, b1, i)
                }
            } else {
                exec_spec(s, b1, i)
            }
        },
    }
}

/// The trace after recording `pc`: appended, oldest dropped beyond `cap`.
pub open spec fn trace_push(t: Seq<u32>, pc: u32, cap: nat) -> Seq<u32> {
    if t.len() + 1 > cap {
        t.push(pc).drop_first()
    } else {
        t.push(pc)
    }
}

/// Every instruction the 16-bit decoder produces is well formed.
pub proof fn lemma_decode_wf(hw: u16)
    ensures
        decode_spec(hw) matches Some(i) ==> instr_wf(i),
{
    assert(hw & 7 < 8) by (bit_vector);
    assert((hw >> 3u16) & 7 < 8) by (bit_vector);
    assert((hw >> 6u16) & 7 < 8) by (bit_vector);
    assert((hw >> 8u16) & 7 < 8) by (bit_vector);
    assert((hw >> 9u16) & 7 < 8) by (bit_vector);
    assert((hw >> 6u16) & 0xF < 16) by (bit_vector);
    assert((hw >> 6u16) & 0x1F < 32) by (bit_vector);
    assert((hw >> 6u16) & 3 < 4) by (bit_vector);
    assert(hw & 0x7F < 128) by (bit_vector);
    assert(hw & 0xF < 16) by (bit_vector);
    assert((hw >> 4u16) & 0xF < 16) by (bit_vector);
    assert((hw >> 8u16) & 0xF < 16) by (bit_vector);
    assert(((((hw >> 7u16) & 1) << 3u16) | (hw & 7)) < 16) by (bit_vector);
    assert(((((hw >> 6u16) & 1) << 3u16) | ((hw >> 3u16) & 7)) < 16) by (bit_vector);
}

/// Every instruction the 32-bit decoder produces is well formed.
pub proof fn lemma_decode32_wf(hw1: u16, hw2: u16)
    ensures
        decode32_spec(hw1, hw2) matches Some(i) ==> instr_wf(i),
{
    assert(hw1 & 0xF < 16) by (bit_vector);
    assert(hw2 & 0xF < 16) by (bit_vector);
    assert((hw2 >> 8u16) & 0xF < 16) by (bit_vector);
    assert((hw2 >> 12u16) & 0xF < 16) by (bit_vector);
    assert(hw2 & 0xFFF < 4096) by (bit_vector);
    assert((hw2 >> 4u16) & 3 < 4) by (bit_vector);
    assert((hw1 >> 5u16) & 3 < 4) by (bit_vector);
    assert((((hw2 >> 12u16) & 7) << 2u16) | ((hw2 >> 6u16) & 3) < 32) by (bit_vector);
    assert((hw1 >> 6u16) & 0xF < 16) by (bit_vector);
}
} // verus!
