//! ARMv7-M CPU core: register file, flags, fetch/decode/execute step and a
//! budgeted run loop.

use crate::emu::bus::{begin_step_spec, read_spec, tick_spec, write_spec, Bus, BusView};
use crate::emu::error::EmuError;
use crate::emu::semantics::{
    adc_spec, advance, alu16_spec, alu32_spec, asr_c_spec, asr_word, bit, branch_target,
    cond_passes_spec, cond_true_spec, dataproc_spec, dpimm_spec, dpreg_spec, exec_spec,
    instr_wf, is_mem, is_mem32, it_expand_spec, it_slot, load_core_spec, load_low_spec,
    load_low_then, load_reg_then, store_then, low_mask,
    lsl_c_spec, lsr_c_spec, mem16_spec, mem32_spec, popcount, reg_spec, reg_values, sbc_spec,
    sdiv_spec, set_low, step_spec, fetch_spec, bl_offset, is_32bit_prefix, trace_push,
    lemma_decode_wf, lemma_decode32_wf, set_nz_spec, set_nzcv_spec, set_reg_spec, sext16, sext8, shift_c_spec,
    shift_reg_spec, store_list_spec, thumb2_wf, trunc, udiv_spec, wadd, with_c, wmul, word, wsub,
    Core, Outcome,
};
use crate::emu::thumb::{
    decode, decode32, decode32_spec, decode_spec, ror32, ror_spec, DpOp, DpRegOp, Instr, Thumb2,
};
use std::collections::VecDeque;
use vstd::prelude::*;

verus! {

/// Number of executed pcs kept in the trace ring.
pub const TRACE_CAP: usize = 32;

/// The emulated core.
pub struct Cpu {
    pub r: [u32; 13],
    pub sp: u32,
    pub lr: u32,
    /// Address of the instruction being executed (even).
    pub pc: u32,
    pub n: bool,
    pub z: bool,
    pub c: bool,
    pub v: bool,
    /// The last executed pcs, oldest first (at most `TRACE_CAP`).
    pub trace: VecDeque<u32>,
    /// Deepest sp seen by the run loop.
    pub min_sp: u32,
    /// Instructions left in the active IT block (0 = none).
    pub it_left: u8,
    /// Condition nibbles of the active IT block, packed MSB first.
    pub it_conds: u16,
}

pub open spec fn books_kept(a: &Cpu, b: &Cpu) -> bool {
    a.trace@ == b.trace@ && a.min_sp == b.min_sp
}

/// AddWithCarry (see `adc_spec`).
pub fn adc(a: u32, b: u32, cin: bool) -> (r: (u32, bool, bool))
    ensures
        r == adc_spec(a, b, cin),
{
    let ci: u64 = if cin { 1 } else { 0 };
    let wide: u64 = a as u64 + b as u64 + ci;
    let sa: i64 = if a >= 0x8000_0000 { a as i64 - 0x1_0000_0000 } else { a as i64 };
    let sb: i64 = if b >= 0x8000_0000 { b as i64 - 0x1_0000_0000 } else { b as i64 };
    let ws: i64 = sa + sb + ci as i64;
    ((wide % 0x1_0000_0000) as u32, wide > 0xFFFF_FFFF, !(-0x8000_0000 <= ws && ws <= 0x7FFF_FFFF))
}

/// Subtract with carry (see `sbc_spec`).
pub fn sbc(a: u32, b: u32, cin: bool) -> (r: (u32, bool, bool))
    ensures
        r == sbc_spec(a, b, cin),
{
    let bw: i64 = if cin { 0 } else { 1 };
    let d: i64 = a as i64 - b as i64 - bw;
    let sa: i64 = if a >= 0x8000_0000 { a as i64 - 0x1_0000_0000 } else { a as i64 };
    let sb: i64 = if b >= 0x8000_0000 { b as i64 - 0x1_0000_0000 } else { b as i64 };
    let ws: i64 = sa - sb - bw;
    let res: u32 = if d < 0 { (d + 0x1_0000_0000) as u32 } else { d as u32 };
    assert(word(a - b - bw) == res);
    (res, d >= 0, !(-0x8000_0000 <= ws && ws <= 0x7FFF_FFFF))
}

fn bit_exec(v: u32, i: u32) -> (r: bool)
    requires
        i < 32,
    ensures
        r == bit(v, i),
{
    (v >> i) & 1 == 1
}

fn lsl_c(v: u32, s: u32, cin: bool) -> (r: (u32, bool))
    ensures
        r == lsl_c_spec(v, s, cin),
{
    if s == 0 {
        (v, cin)
    } else if s < 32 {
        (v << s, bit_exec(v, 32 - s))
    } else if s == 32 {
        (0, bit_exec(v, 0))
    } else {
        (0, false)
    }
}

fn lsr_c(v: u32, s: u32) -> (r: (u32, bool))
    ensures
        r == lsr_c_spec(v, s),
{
    let s = if s == 0 { 32 } else { s };
    if s < 32 {
        (v >> s, bit_exec(v, s - 1))
    } else if s == 32 {
        (0, v >> 31u32 != 0)
    } else {
        (0, false)
    }
}

fn asr_word_exec(v: u32, s: u32) -> (r: u32)
    requires
        s < 32,
    ensures
        r == asr_word(v, s),
{
    if v >> 31u32 == 1 {
        (v >> s) | !(0xFFFF_FFFFu32 >> s)
    } else {
        v >> s
    }
}

fn asr_c(v: u32, s: u32) -> (r: (u32, bool))
    ensures
        r == asr_c_spec(v, s),
{
    let s = if s == 0 { 32 } else { s };
    if s >= 32 {
        let c = v >> 31u32 != 0;
        (if c { 0xFFFF_FFFF } else { 0 }, c)
    } else {
        (asr_word_exec(v, s), bit_exec(v, s - 1))
    }
}

/// Register-controlled shifter with carry-out (see `shift_reg_spec`).
pub fn shift_reg(value: u32, stype: u8, amount: u32, carry_in: bool) -> (r: (u32, bool))
    ensures
        r == shift_reg_spec(value, stype, amount, carry_in),
{
    if amount == 0 {
        (value, carry_in)
    } else if stype == 0 {
        lsl_c(value, amount, carry_in)
    } else if stype == 1 {
        lsr_c(value, amount)
    } else if stype == 2 {
        asr_c(value, amount)
    } else {
        let v = ror32(value, amount);
        (v, v >> 31u32 != 0)
    }
}

/// Immediate-shift barrel shifter with carry-out (see `shift_c_spec`).
pub fn shift_c(value: u32, stype: u8, amount: u8, carry_in: bool) -> (r: (u32, bool))
    ensures
        r == shift_c_spec(value, stype, amount, carry_in),
{
    let a = amount as u32;
    if stype == 0 {
        lsl_c(value, a, carry_in)
    } else if stype == 1 {
        lsr_c(value, a)
    } else if stype == 2 {
        asr_c(value, a)
    } else if a == 0 {
        ((value >> 1u32) | (if carry_in { 0x8000_0000u32 } else { 0u32 }), bit_exec(value, 0))
    } else {
        let v = ror32(value, a);
        (v, v >> 31u32 != 0)
    }
}

fn sext8_exec(v: u32) -> (r: u32)
    ensures
        r == sext8(v),
{
    let b = v & 0xFF;
    if b >= 0x80 {
        b | 0xFFFF_FF00
    } else {
        b
    }
}

fn sext16_exec(v: u32) -> (r: u32)
    ensures
        r == sext16(v),
{
    let h = v & 0xFFFF;
    if h >= 0x8000 {
        h | 0xFFFF_0000
    } else {
        h
    }
}

fn popcount_exec(x: u32, k: u32) -> (r: u32)
    requires
        k <= 32,
    ensures
        r == popcount(x, k as nat),
        r <= k,
{
    let mut i: u32 = 0;
    let mut n: u32 = 0;
    while i < k
        invariant
            i <= k <= 32,
            n == popcount(x, i as nat),
            n <= i,
        decreases k - i,
    {
        if bit_exec(x, i) {
            n = n + 1;
        }
        i = i + 1;
    }
    n
}

/// pc + 4 + off, wrapping.
fn branch_to(pc: u32, off: i32) -> (t: u32)
    ensures
        t == branch_target(pc, off),
{
    let base = pc.wrapping_add(4);
    if off >= 0 {
        base.wrapping_add(off as u32)
    } else {
        base.wrapping_sub((-(off as i64)) as u32)
    }
}

fn sdiv(a: u32, b: u32) -> (q: u32)
    ensures
        q == sdiv_spec(a, b),
{
    if b == 0 {
        return 0;
    }
    let sa: i64 = if a >= 0x8000_0000 { a as i64 - 0x1_0000_0000 } else { a as i64 };
    let sb: i64 = if b >= 0x8000_0000 { b as i64 - 0x1_0000_0000 } else { b as i64 };
    let ma: u64 = if sa < 0 { (-sa) as u64 } else { sa as u64 };
    let mb: u64 = if sb < 0 { (-sb) as u64 } else { sb as u64 };
    let q: u64 = ma / mb;
    if (sa < 0) != (sb < 0) {
        if q == 0 { 0 } else { (0x1_0000_0000 - q) as u32 }
    } else {
        (q % 0x1_0000_0000) as u32
    }
}

fn low_mask_exec(width: u8) -> (m: u32)
    requires
        1 <= width <= 32,
    ensures
        m == low_mask(width),
{
    if width >= 32 {
        0xFFFF_FFFF
    } else {
        assert(1u32 << width >= 1) by (bit_vector)
            requires
                width < 32,
        ;
        (1u32 << width) - 1
    }
}

fn it_slot_exec(cond: u8, field: u8, n: u8, k: u8) -> (r: u16)
    requires
        1 <= k < n <= 4,
    ensures
        r == it_slot(cond, field, n, k),
{
    let then = ((field >> (n - 1 - k)) & 1) ^ (cond & 1);
    let eff: u8 = if then == 1 { cond } else { cond ^ 1 };
    (eff as u16) << (12 - 4 * k) as u16
}

fn it_expand(cond: u8, mask: u8) -> (r: (u16, u8))
    requires
        0 < mask < 16,
    ensures
        r == it_expand_spec(cond, mask),
        1 <= r.1 <= 4,
{
    let tz: u8 = if mask & 1 != 0 {
        0
    } else if mask & 2 != 0 {
        1
    } else if mask & 4 != 0 {
        2
    } else {
        3
    };
    let n: u8 = 4 - tz;
    assert(1u8 << ((n - 1) as u8) >= 1) by (bit_vector)
        requires
            1 <= n <= 4,
    ;
    let field: u8 = (!mask >> (tz + 1)) & ((1u8 << (n - 1)) - 1);
    let c1: u16 = if n > 1 { it_slot_exec(cond, field, n, 1) } else { 0 };
    let c2: u16 = if n > 2 { it_slot_exec(cond, field, n, 2) } else { 0 };
    let c3: u16 = if n > 3 { it_slot_exec(cond, field, n, 3) } else { 0 };
    (((cond as u16) << 12u16) | c1 | c2 | c3, n)
}

impl Cpu {
    /// Architectural state.
    pub open spec fn state(&self) -> Core {
        Core {
            r: self.r@,
            sp: self.sp,
            lr: self.lr,
            pc: self.pc,
            n: self.n,
            z: self.z,
            c: self.c,
            v: self.v,
            it_left: self.it_left,
            it_conds: self.it_conds,
        }
    }

    /// A core at reset: all registers and flags 0, pc 0, no IT block, empty
    /// trace, lowest sp at u32::MAX.
    pub fn new() -> (c: Self)
        ensures
            c.state() == (Core {
                r: Seq::new(13, |i: int| 0u32),
                sp: 0,
                lr: 0,
                pc: 0,
                n: false,
                z: false,
                c: false,
                v: false,
                it_left: 0,
                it_conds: 0,
            }),
            c.trace@.len() == 0,
            c.min_sp == u32::MAX,
    {
        let c = Cpu {
            r: [0; 13],
            sp: 0,
            lr: 0,
            pc: 0,
            n: false,
            z: false,
            c: false,
            v: false,
            trace: VecDeque::new(),
            min_sp: u32::MAX,
            it_left: 0,
            it_conds: 0,
        };
        assert(c.r@ =~= Seq::new(13, |i: int| 0u32));
        c
    }

    /// Register read: 13 = sp, 14 = lr, 15 = pc + 4.
    pub fn reg(&self, i: u8) -> (v: u32)
        requires
            i < 16,
        ensures
            v == reg_spec(self.state(), i),
    {
        match i {
            13 => self.sp,
            14 => self.lr,
            15 => self.pc.wrapping_add(4),
            _ => self.r[i as usize],
        }
    }

    /// Register write: 13 = sp, 14 = lr, 15 = pc (bit 0 cleared).
    pub fn set_reg(&mut self, i: u8, v: u32)
        requires
            i < 16,
        ensures
            final(self).state() == set_reg_spec(old(self).state(), i, v),
            books_kept(final(self), old(self)),
    {
        match i {
            13 => self.sp = v,
            14 => self.lr = v,
            15 => self.pc = v & 0xFFFF_FFFE,
            _ => self.r[i as usize] = v,
        }
    }

    fn set_nz(&mut self, r: u32)
        ensures
            final(self).state() == set_nz_spec(old(self).state(), r),
            books_kept(final(self), old(self)),
    {
        self.n = r >> 31u32 != 0;
        self.z = r == 0;
    }

    fn set_nzcv(&mut self, r: u32, c: bool, v: bool)
        ensures
            final(self).state() == set_nzcv_spec(old(self).state(), r, c, v),
            books_kept(final(self), old(self)),
    {
        self.n = r >> 31u32 != 0;
        self.z = r == 0;
        self.c = c;
        self.v = v;
    }

    /// Condition codes of conditional branches.
    pub fn cond_true(&self, cond: u8) -> (r: bool)
        ensures
            r == cond_true_spec(self.state(), cond),
    {
        match cond {
            0 => self.z,
            1 => !self.z,
            2 => self.c,
            3 => !self.c,
            4 => self.n,
            5 => !self.n,
            6 => self.v,
            7 => !self.v,
            8 => self.c && !self.z,
            9 => !self.c || self.z,
            10 => self.n == self.v,
            11 => self.n != self.v,
            12 => !self.z && self.n == self.v,
            13 => self.z || self.n != self.v,
            _ => false,
        }
    }

    /// Condition evaluation for IT blocks.
    pub fn cond_passes(&self, c: u8) -> (r: bool)
        ensures
            r == cond_passes_spec(self.state(), c),
    {
        let k = c >> 1u8;
        let base = if k == 0 {
            self.z
        } else if k == 1 {
            self.c
        } else if k == 2 {
            self.n
        } else if k == 3 {
            self.v
        } else if k == 4 {
            self.c && !self.z
        } else if k == 5 {
            self.n == self.v
        } else if k == 6 {
            !self.z && self.n == self.v
        } else {
            true
        };
        base != (c & 1 == 1)
    }
}


impl Cpu {
    #[verifier::rlimit(40)]
    fn dataproc(&mut self, op: u8, rdn: u8, rm: u8)
        requires
            op < 16,
            rdn < 8,
            rm < 8,
        ensures
            final(self).state() == dataproc_spec(old(self).state(), op, rdn, rm),
            books_kept(final(self), old(self)),
    {
        let a = self.r[rdn as usize];
        let b = self.r[rm as usize];
        let sh = b & 0xFF;
        let d = rdn as usize;
        match op {
            0 => {
                self.set_nz(a & b);
                self.r[d] = a & b;
            },
            1 => {
                self.set_nz(a ^ b);
                self.r[d] = a ^ b;
            },
            2 => {
                let (res, c) = lsl_c(a, sh, self.c);
                self.c = c;
                self.set_nz(res);
                self.r[d] = res;
            },
            3 => {
                let (res, c) = if sh == 0 { (a, self.c) } else { lsr_c(a, sh) };
                self.c = c;
                self.set_nz(res);
                self.r[d] = res;
            },
            4 => {
                let (res, c) = if sh == 0 { (a, self.c) } else { asr_c(a, sh) };
                self.c = c;
                self.set_nz(res);
                self.r[d] = res;
            },
            5 => {
                let (res, c, v) = adc(a, b, self.c);
                self.set_nzcv(res, c, v);
                self.r[d] = res;
            },
            6 => {
                let (res, c, v) = sbc(a, b, self.c);
                self.set_nzcv(res, c, v);
                self.r[d] = res;
            },
            7 => {
                let (res, c) = if sh == 0 {
                    (a, self.c)
                } else if sh & 31 == 0 {
                    (a, a >> 31u32 != 0)
                } else {
                    let r = ror32(a, sh & 31);
                    (r, r >> 31u32 != 0)
                };
                self.c = c;
                self.set_nz(res);
                self.r[d] = res;
            },
            8 => {
                self.set_nz(a & b);
            },
            9 => {
                let (res, c, v) = sbc(0, b, true);
                self.set_nzcv(res, c, v);
                self.r[d] = res;
            },
            10 => {
                let (res, c, v) = sbc(a, b, true);
                self.set_nzcv(res, c, v);
            },
            11 => {
                let (res, c, v) = adc(a, b, false);
                self.set_nzcv(res, c, v);
            },
            12 => {
                self.set_nz(a | b);
                self.r[d] = a | b;
            },
            13 => {
                let res = a.wrapping_mul(b);
                self.set_nz(res);
                self.r[d] = res;
            },
            14 => {
                self.set_nz(a & !b);
                self.r[d] = a & !b;
            },
            _ => {
                self.set_nz(!b);
                self.r[d] = !b;
            },
        }
    }

    #[verifier::rlimit(60)]
    fn exec_alu16(&mut self, instr: Instr)
        requires
            instr_wf(instr),
            !is_mem(instr),
            !(instr is Thumb2),
        ensures
            final(self).state() == alu16_spec(old(self).state(), instr),
            books_kept(final(self), old(self)),
    {
        match instr {
            Instr::LslImm { rd, rm, imm } => {
                let (res, c) = lsl_c(self.r[rm as usize], imm as u32, self.c);
                self.c = c;
                self.set_nz(res);
                self.r[rd as usize] = res;
                self.pc = self.pc.wrapping_add(2);
            },
            Instr::LsrImm { rd, rm, imm } => {
                let (res, c) = lsr_c(self.r[rm as usize], imm as u32);
                self.c = c;
                self.set_nz(res);
                self.r[rd as usize] = res;
                self.pc = self.pc.wrapping_add(2);
            },
            Instr::AsrImm { rd, rm, imm } => {
                let (res, c) = asr_c(self.r[rm as usize], imm as u32);
                self.c = c;
                self.set_nz(res);
                self.r[rd as usize] = res;
                self.pc = self.pc.wrapping_add(2);
            },
            Instr::AddReg { rd, rn, rm } => {
                let (res, c, v) = adc(self.r[rn as usize], self.r[rm as usize], false);
                self.set_nzcv(res, c, v);
                self.r[rd as usize] = res;
                self.pc = self.pc.wrapping_add(2);
            },
            Instr::SubReg { rd, rn, rm } => {
                let (res, c, v) = sbc(self.r[rn as usize], self.r[rm as usize], true);
                self.set_nzcv(res, c, v);
                self.r[rd as usize] = res;
                self.pc = self.pc.wrapping_add(2);
            },
            Instr::AddImm3 { rd, rn, imm } => {
                let (res, c, v) = adc(self.r[rn as usize], imm as u32, false);
                self.set_nzcv(res, c, v);
                self.r[rd as usize] = res;
                self.pc = self.pc.wrapping_add(2);
            },
            Instr::SubImm3 { rd, rn, imm } => {
                let (res, c, v) = sbc(self.r[rn as usize], imm as u32, true);
                self.set_nzcv(res, c, v);
                self.r[rd as usize] = res;
                self.pc = self.pc.wrapping_add(2);
            },
            Instr::MovImm { rd, imm } => {
                self.set_nz(imm as u32);
                self.r[rd as usize] = imm as u32;
                self.pc = self.pc.wrapping_add(2);
            },
            Instr::CmpImm { rn, imm } => {
                let (res, c, v) = sbc(self.r[rn as usize], imm as u32, true);
                self.set_nzcv(res, c, v);
                self.pc = self.pc.wrapping_add(2);
            },
            Instr::AddImm8 { rdn, imm } => {
                let (res, c, v) = adc(self.r[rdn as usize], imm as u32, false);
                self.set_nzcv(res, c, v);
                self.r[rdn as usize] = res;
                self.pc = self.pc.wrapping_add(2);
            },
            Instr::SubImm8 { rdn, imm } => {
                let (res, c, v) = sbc(self.r[rdn as usize], imm as u32, true);
                self.set_nzcv(res, c, v);
                self.r[rdn as usize] = res;
                self.pc = self.pc.wrapping_add(2);
            },
            Instr::DataProc { op, rdn, rm } => {
                self.dataproc(op, rdn, rm);
                self.pc = self.pc.wrapping_add(2);
            },
            Instr::AddHi { rd, rm } => {
                let res = self.reg(rd).wrapping_add(self.reg(rm));
                self.set_reg(rd, res);
                if rd != 15 {
                    self.pc = self.pc.wrapping_add(2);
                }
            },
            Instr::CmpHi { rn, rm } => {
                let (res, c, v) = sbc(self.reg(rn), self.reg(rm), true);
                self.set_nzcv(res, c, v);
                self.pc = self.pc.wrapping_add(2);
            },
            Instr::MovHi { rd, rm } => {
                let v = self.reg(rm);
                self.set_reg(rd, v);
                if rd != 15 {
                    self.pc = self.pc.wrapping_add(2);
                }
            },
            Instr::Bx { rm } => {
                self.pc = self.reg(rm) & 0xFFFF_FFFE;
            },
            Instr::Blx { rm } => {
                let target = self.reg(rm) & 0xFFFF_FFFE;
                self.lr = self.pc.wrapping_add(2) | 1;
                self.pc = target;
            },
            Instr::Adr { rd, imm } => {
                self.r[rd as usize] = (self.pc.wrapping_add(4) & 0xFFFF_FFFC).wrapping_add(
                    (imm as u32) * 4,
                );
                self.pc = self.pc.wrapping_add(2);
            },
            Instr::AddSpImm { rd, imm } => {
                self.r[rd as usize] = self.sp.wrapping_add((imm as u32) * 4);
                self.pc = self.pc.wrapping_add(2);
            },
            Instr::AdjSp { sub, imm } => {
                let off = (imm as u32) * 4;
                if sub {
                    self.sp = self.sp.wrapping_sub(off);
                } else {
                    self.sp = self.sp.wrapping_add(off);
                }
                self.pc = self.pc.wrapping_add(2);
            },
            Instr::B { off } => {
                self.pc = branch_to(self.pc, off);
            },
            Instr::BCond { cond, off, wide } => {
                if self.cond_true(cond) {
                    self.pc = branch_to(self.pc, off);
                } else {
                    self.pc = self.pc.wrapping_add(if wide { 4 } else { 2 });
                }
            },
            Instr::Cbz { nonzero, rn, off } => {
                if (self.r[rn as usize] != 0) == nonzero {
                    self.pc = branch_to(self.pc, off);
                } else {
                    self.pc = self.pc.wrapping_add(2);
                }
            },
            Instr::Bl { off } => {
                self.lr = self.pc.wrapping_add(4) | 1;
                self.pc = branch_to(self.pc, off);
            },
            Instr::Extend { op, rd, rm } => {
                let v = self.r[rm as usize];
                self.r[rd as usize] = if op == 0 {
                    sext16_exec(v)
                } else if op == 1 {
                    sext8_exec(v)
                } else if op == 2 {
                    v & 0xFFFF
                } else {
                    v & 0xFF
                };
                self.pc = self.pc.wrapping_add(2);
            },
            Instr::Rev { op, rd, rm } => {
                let v = self.r[rm as usize];
                self.r[rd as usize] = if op == 0 {
                    ((v & 0xFF) << 24u32) | (((v >> 8u32) & 0xFF) << 16u32) | (((v >> 16u32)
                        & 0xFF) << 8u32) | (v >> 24u32)
                } else if op == 1 {
                    ((v << 8u32) & 0xFF00_FF00) | ((v >> 8u32) & 0x00FF_00FF)
                } else {
                    sext16_exec(((v & 0xFF) << 8u32) | ((v >> 8u32) & 0xFF))
                };
                self.pc = self.pc.wrapping_add(2);
            },
            Instr::It { cond, mask } => {
                let (conds, n) = it_expand(cond, mask);
                self.it_conds = conds;
                self.it_left = n;
                self.pc = self.pc.wrapping_add(2);
            },
            _ => {
                self.pc = self.pc.wrapping_add(2);
            },
        }
    }
}


impl Cpu {
    fn exec_dp_imm(
        &mut self,
        op: DpOp,
        rd: u8,
        rn: u8,
        set_flags: bool,
        imm: u32,
        shifter_c: Option<bool>,
    )
        requires
            rd < 16,
            rn < 16,
        ensures
            final(self).state() == dpimm_spec(old(self).state(), op, rd, rn, set_flags, imm, shifter_c),
            books_kept(final(self), old(self)),
    {
        let lhs = if rn == 15 && op == DpOp::Orr { 0 } else { self.reg(rn) };
        let lc = match shifter_c {
            Some(c) => c,
            None => self.c,
        };
        let (res, c, v) = match op {
            DpOp::And => (lhs & imm, lc, false),
            DpOp::Orr => (lhs | imm, lc, false),
            DpOp::Eor => (lhs ^ imm, lc, false),
            DpOp::Bic => (lhs & !imm, lc, false),
            DpOp::Add => adc(lhs, imm, false),
            DpOp::Sub => sbc(lhs, imm, true),
            DpOp::Rsb => sbc(imm, lhs, true),
        };
        if rd != 15 {
            self.set_reg(rd, res);
        }
        if set_flags {
            self.set_nzcv(res, c, v);
        }
        self.pc = self.pc.wrapping_add(4);
    }

    #[verifier::rlimit(40)]
    fn exec_dp_reg(
        &mut self,
        op: DpRegOp,
        rd: u8,
        rn: u8,
        rm: u8,
        stype: u8,
        amount: u8,
        set_flags: bool,
    )
        requires
            rd < 16,
            rn < 16,
            rm < 16,
        ensures
            final(self).state() == dpreg_spec(
                old(self).state(),
                op,
                rd,
                rn,
                rm,
                stype,
                amount,
                set_flags,
            ),
            books_kept(final(self), old(self)),
    {
        let (sh, shc) = shift_c(self.reg(rm), stype, amount, self.c);
        let lhs = if rn == 15 && (op == DpRegOp::Orr || op == DpRegOp::Orn) {
            0
        } else {
            self.reg(rn)
        };
        let (res, c, v) = match op {
            DpRegOp::And => (lhs & sh, shc, false),
            DpRegOp::Bic => (lhs & !sh, shc, false),
            DpRegOp::Orr => (lhs | sh, shc, false),
            DpRegOp::Orn => (lhs | !sh, shc, false),
            DpRegOp::Eor => (lhs ^ sh, shc, false),
            DpRegOp::Add => adc(self.reg(rn), sh, false),
            DpRegOp::Adc => adc(self.reg(rn), sh, self.c),
            DpRegOp::Sub => sbc(self.reg(rn), sh, true),
            DpRegOp::Sbc => sbc(self.reg(rn), sh, self.c),
        };
        if rd != 15 {
            self.set_reg(rd, res);
        }
        if set_flags {
            self.set_nzcv(res, c, v);
        }
        self.pc = self.pc.wrapping_add(4);
    }

    /// Leading zeros of a word.
    fn clz(v: u32) -> (r: u32)
        ensures
            r == v.leading_zeros(),
    {
        v.leading_zeros()
    }

    #[verifier::rlimit(60)]
    fn exec_alu32(&mut self, t: Thumb2)
        requires
            thumb2_wf(t),
            !is_mem32(t),
        ensures
            final(self).state() == alu32_spec(old(self).state(), t),
            books_kept(final(self), old(self)),
    {
        match t {
            Thumb2::DpImm { op, rd, rn, set_flags, imm, shifter_c } => {
                self.exec_dp_imm(op, rd, rn, set_flags, imm, shifter_c);
            },
            Thumb2::DpReg { op, rd, rn, rm, stype, amount, set_flags } => {
                self.exec_dp_reg(op, rd, rn, rm, stype, amount, set_flags);
            },
            Thumb2::MovShiftReg { rd, rn, rm, stype, set_flags } => {
                let (res, c) = shift_reg(self.reg(rn), stype, self.reg(rm) & 0xFF, self.c);
                self.set_reg(rd, res);
                if set_flags {
                    self.set_nz(res);
                    self.c = c;
                }
                self.pc = self.pc.wrapping_add(4);
            },
            Thumb2::Movw { rd, imm16 } => {
                self.set_reg(rd, imm16 as u32);
                self.pc = self.pc.wrapping_add(4);
            },
            Thumb2::Movt { rd, imm16 } => {
                let v = (self.reg(rd) & 0xFFFF) | ((imm16 as u32) << 16u32);
                self.set_reg(rd, v);
                self.pc = self.pc.wrapping_add(4);
            },
            Thumb2::B { off } => {
                self.pc = branch_to(self.pc, off);
            },
            Thumb2::Mul { rd, rn, rm, ra, sub } => {
                let prod = self.reg(rn).wrapping_mul(self.reg(rm));
                let acc = self.reg(ra);
                let res = if ra == 15 {
                    prod
                } else if sub {
                    acc.wrapping_sub(prod)
                } else {
                    prod.wrapping_add(acc)
                };
                self.set_reg(rd, res);
                self.pc = self.pc.wrapping_add(4);
            },
            Thumb2::Extend { signed, half, rd, rm, rot } => {
                let v0 = ror32(self.reg(rm), (rot as u32) * 8);
                let v1 = if half { v0 & 0xFFFF } else { v0 & 0xFF };
                let v = if signed {
                    if half { sext16_exec(v1) } else { sext8_exec(v1) }
                } else {
                    v1
                };
                self.set_reg(rd, v);
                self.pc = self.pc.wrapping_add(4);
            },
            Thumb2::Sdiv { rd, rn, rm } => {
                let q = sdiv(self.reg(rn), self.reg(rm));
                self.set_reg(rd, q);
                self.pc = self.pc.wrapping_add(4);
            },
            Thumb2::Udiv { rd, rn, rm } => {
                let a = self.reg(rn);
                let b = self.reg(rm);
                let q = if b == 0 { 0 } else { a / b };
                self.set_reg(rd, q);
                self.pc = self.pc.wrapping_add(4);
            },
            Thumb2::Sbfx { rd, rn, lsbit, width } => {
                let field = (self.reg(rn) >> (lsbit as u32)) & low_mask_exec(width);
                let sign = 1u32 << ((width - 1) as u32);
                self.set_reg(rd, (field ^ sign).wrapping_sub(sign));
                self.pc = self.pc.wrapping_add(4);
            },
            Thumb2::Ubfx { rd, rn, lsbit, width } => {
                let v = (self.reg(rn) >> (lsbit as u32)) & low_mask_exec(width);
                self.set_reg(rd, v);
                self.pc = self.pc.wrapping_add(4);
            },
            Thumb2::Clz { rd, rm } => {
                let v = Self::clz(self.reg(rm));
                self.set_reg(rd, v);
                self.pc = self.pc.wrapping_add(4);
            },
            Thumb2::Mrs { rd, sysreg } => {
                let v = if sysreg == 8 || sysreg == 9 {
                    self.sp
                } else if sysreg == 3 {
                    0x0100_0000
                } else {
                    0
                };
                self.set_reg(rd, v);
                self.pc = self.pc.wrapping_add(4);
            },
            Thumb2::BfiBfc { rd, rn, lsbit, width } => {
                let mask = low_mask_exec(width);
                let field = if rn == 15 { 0 } else { self.reg(rn) & mask };
                let v = (self.reg(rd) & !(mask << (lsbit as u32))) | (field << (lsbit as u32));
                self.set_reg(rd, v);
                self.pc = self.pc.wrapping_add(4);
            },
            Thumb2::Subw { rd, rn, imm } => {
                let v = self.reg(rn).wrapping_sub(imm);
                self.set_reg(rd, v);
                self.pc = self.pc.wrapping_add(4);
            },
            _ => {},
        }
    }
}


/// Sized load, zero-extended to a word.
fn load(bus: &Bus, addr: u32, size: u8) -> (r: Result<u32, EmuError>)
    requires
        size == 1 || size == 2 || size == 4,
    ensures
        match read_spec(bus@, addr, size) {
            Ok(v) => r == Ok::<u32, EmuError>(trunc(v, size)),
            Err(e) => r == Err::<u32, EmuError>(e),
        },
{
    if size == 1 {
        Ok(bus.read_u8(addr)? as u32)
    } else if size == 2 {
        Ok(bus.read_u16(addr)? as u32)
    } else {
        bus.read_u32(addr)
    }
}

/// Sized store of a value that fits the size.
fn store(bus: &mut Bus, addr: u32, val: u32, size: u8) -> (r: Result<(), EmuError>)
    requires
        (size == 1 && val < 0x100) || (size == 2 && val < 0x1_0000) || size == 4,
    ensures
        (r, final(bus)@) == write_spec(old(bus)@, addr, val, size),
{
    if size == 1 {
        bus.write_u8(addr, val as u8)
    } else if size == 2 {
        bus.write_u16(addr, val as u16)
    } else {
        bus.write_u32(addr, val)
    }
}

/// Word stores of `vals[i]` for the set bits i < n of `list`, ascending.
fn store_list(bus: &mut Bus, vals: &Vec<u32>, list: u32, n: u32, addr: u32) -> (r: (
    Result<(), EmuError>,
    u32,
))
    requires
        n <= 32,
        n <= vals@.len(),
    ensures
        (r.0, final(bus)@, r.1) == store_list_spec(old(bus)@, vals@, list, 0, n as nat, addr),
{
    let mut i: u32 = 0;
    let mut a = addr;
    while i < n
        invariant
            i <= n <= 32,
            n <= vals@.len(),
            store_list_spec(old(bus)@, vals@, list, 0, n as nat, addr) == store_list_spec(
                bus@,
                vals@,
                list,
                i as nat,
                n as nat,
                a,
            ),
        decreases n - i,
    {
        if bit_exec(list, i) {
            match bus.write_u32(a, vals[i as usize]) {
                Err(e) => {
                    return (Err(e), a);
                },
                Ok(_) => {},
            }
            a = a.wrapping_add(4);
        }
        i = i + 1;
    }
    (Ok(()), a)
}

/// Word loads into low registers for the set bits of `list` (bits 0..7), ascending.
fn load_low(bus: &Bus, regs: [u32; 13], list: u32, addr: u32) -> (r: (
    Result<(), EmuError>,
    [u32; 13],
    u32,
))
    ensures
        (r.0, r.1@, r.2) == load_low_spec(bus@, regs@, list, 0, addr),
{
    let mut i: u32 = 0;
    let mut a = addr;
    let mut cur = regs;
    while i < 8
        invariant
            i <= 8,
            cur@.len() == 13,
            load_low_spec(bus@, regs@, list, 0, addr) == load_low_spec(bus@, cur@, list, i as nat, a),
        decreases 8 - i,
    {
        if bit_exec(list, i) {
            match bus.read_u32(a) {
                Err(e) => {
                    return (Err(e), cur, a);
                },
                Ok(v) => {
                    cur[i as usize] = v;
                },
            }
            a = a.wrapping_add(4);
        }
        i = i + 1;
    }
    (Ok(()), cur, a)
}

impl Cpu {
    /// The low registers as a vector.
    fn low_vec(&self) -> (v: Vec<u32>)
        ensures
            v@ == self.r@,
    {
        let mut v: Vec<u32> = Vec::new();
        let mut i: usize = 0;
        while i < 13
            invariant
                i <= 13,
                v@ == self.r@.subrange(0, i as int),
            decreases 13 - i,
        {
            v.push(self.r[i]);
            i = i + 1;
        }
        v
    }

    /// r0..r14 as read through `reg`.
    fn reg_vec(&self) -> (v: Vec<u32>)
        ensures
            v@ == reg_values(self.state()),
    {
        let mut v: Vec<u32> = Vec::new();
        let mut i: u8 = 0;
        while i < 15
            invariant
                i <= 15,
                v@ == reg_values(self.state()).subrange(0, i as int),
            decreases 15 - i,
        {
            v.push(self.reg(i));
            i = i + 1;
        }
        v
    }

    /// Word loads through the register-write rules for the set bits of
    /// `list` (bits 0..15); bit 15 yields the new pc instead.
    fn load_core(&mut self, bus: &Bus, list: u32, addr: u32) -> (r: (
        Result<(), EmuError>,
        u32,
        Option<u32>,
    ))
        ensures
            (r.0, final(self).state(), r.1, r.2) == load_core_spec(
                bus@,
                old(self).state(),
                list,
                0,
                addr,
                None,
            ),
            books_kept(final(self), old(self)),
    {
        let mut i: u32 = 0;
        let mut a = addr;
        let mut np: Option<u32> = None;
        while i < 16
            invariant
                i <= 16,
                load_core_spec(bus@, old(self).state(), list, 0, addr, None) == load_core_spec(
                    bus@,
                    self.state(),
                    list,
                    i as nat,
                    a,
                    np,
                ),
                books_kept(self, old(self)),
            decreases 16 - i,
        {
            if bit_exec(list, i) {
                match bus.read_u32(a) {
                    Err(e) => {
                        return (Err(e), a, np);
                    },
                    Ok(v) => {
                        if i == 15 {
                            np = Some(v & 0xFFFF_FFFE);
                        } else {
                            self.set_reg(i as u8, v);
                        }
                    },
                }
                a = a.wrapping_add(4);
            }
            i = i + 1;
        }
        (Ok(()), a, np)
    }
}


impl Cpu {
    /// Load `size` bytes into low register `rt` and advance by 2.
    fn load_low_reg(&mut self, bus: &Bus, addr: u32, size: u8, rt: u8) -> (r: Result<(), EmuError>)
        requires
            size == 1 || size == 2 || size == 4,
            rt < 8,
        ensures
            (r, final(self).state(), bus@) == load_low_then(old(self).state(), bus@, addr, size, rt, 2),
            books_kept(final(self), old(self)),
    {
        let v = load(bus, addr, size)?;
        self.r[rt as usize] = v;
        self.pc = self.pc.wrapping_add(2);
        Ok(())
    }

    #[verifier::rlimit(60)]
    fn exec_mem16(&mut self, bus: &mut Bus, instr: Instr) -> (r: Result<(), EmuError>)
        requires
            instr_wf(instr),
            is_mem(instr),
            !(instr is Thumb2),
        ensures
            (r, final(self).state(), final(bus)@) == mem16_spec(old(self).state(), old(bus)@, instr),
            books_kept(final(self), old(self)),
    {
        match instr {
            Instr::LdrLit { rt, imm } => {
                let addr = (self.pc.wrapping_add(4) & 0xFFFF_FFFC).wrapping_add((imm as u32) * 4);
                self.load_low_reg(bus, addr, 4, rt)
            },
            Instr::LsReg { op, rt, rn, rm } => {
                let addr = self.r[rn as usize].wrapping_add(self.r[rm as usize]);
                let x = self.r[rt as usize];
                if op == 0 {
                    store(bus, addr, x, 4)?;
                    self.pc = self.pc.wrapping_add(2);
                    Ok(())
                } else if op == 1 {
                    store(bus, addr, (x as u16) as u32, 2)?;
                    self.pc = self.pc.wrapping_add(2);
                    Ok(())
                } else if op == 2 {
                    store(bus, addr, (x as u8) as u32, 1)?;
                    self.pc = self.pc.wrapping_add(2);
                    Ok(())
                } else if op == 3 {
                    let v = load(bus, addr, 1)?;
                    self.r[rt as usize] = sext8_exec(v);
                    self.pc = self.pc.wrapping_add(2);
                    Ok(())
                } else if op == 4 {
                    self.load_low_reg(bus, addr, 4, rt)
                } else if op == 5 {
                    self.load_low_reg(bus, addr, 2, rt)
                } else if op == 6 {
                    self.load_low_reg(bus, addr, 1, rt)
                } else {
                    let v = load(bus, addr, 2)?;
                    self.r[rt as usize] = sext16_exec(v);
                    self.pc = self.pc.wrapping_add(2);
                    Ok(())
                }
            },
            Instr::LsImm { load: ld, byte, rt, rn, imm } => {
                let addr = self.r[rn as usize].wrapping_add(
                    (imm as u32) * (if byte { 1u32 } else { 4u32 }),
                );
                let x = self.r[rt as usize];
                if !ld && !byte {
                    store(bus, addr, x, 4)?;
                    self.pc = self.pc.wrapping_add(2);
                    Ok(())
                } else if !ld {
                    store(bus, addr, (x as u8) as u32, 1)?;
                    self.pc = self.pc.wrapping_add(2);
                    Ok(())
                } else if !byte {
                    self.load_low_reg(bus, addr, 4, rt)
                } else {
                    self.load_low_reg(bus, addr, 1, rt)
                }
            },
            Instr::LshImm { load: ld, rt, rn, imm } => {
                let addr = self.r[rn as usize].wrapping_add((imm as u32) * 2);
                if ld {
                    self.load_low_reg(bus, addr, 2, rt)
                } else {
                    store(bus, addr, (self.r[rt as usize] as u16) as u32, 2)?;
                    self.pc = self.pc.wrapping_add(2);
                    Ok(())
                }
            },
            Instr::LsSp { load: ld, rt, imm } => {
                let addr = self.sp.wrapping_add((imm as u32) * 4);
                if ld {
                    self.load_low_reg(bus, addr, 4, rt)
                } else {
                    store(bus, addr, self.r[rt as usize], 4)?;
                    self.pc = self.pc.wrapping_add(2);
                    Ok(())
                }
            },
            Instr::Push { list, lr } => {
                let count = popcount_exec(list as u32, 8) + (if lr { 1u32 } else { 0u32 });
                let addr0 = self.sp.wrapping_sub(4 * count);
                let vals = self.low_vec();
                self.sp = addr0;
                let (res, a1) = store_list(bus, &vals, list as u32, 8, addr0);
                res?;
                if lr {
                    store(bus, a1, self.lr, 4)?;
                }
                self.pc = self.pc.wrapping_add(2);
                Ok(())
            },
            Instr::Pop { list, pc } => {
                let (res, regs, a1) = load_low(bus, self.r, list as u32, self.sp);
                self.r = regs;
                res?;
                if pc {
                    let v = bus.read_u32(a1)?;
                    self.sp = a1.wrapping_add(4);
                    self.pc = v & 0xFFFF_FFFE;
                } else {
                    self.sp = a1;
                    self.pc = self.pc.wrapping_add(2);
                }
                Ok(())
            },
            Instr::Stm { rn, list } => {
                let vals = self.low_vec();
                let (res, a1) = store_list(bus, &vals, list as u32, 8, self.r[rn as usize]);
                res?;
                self.r[rn as usize] = a1;
                self.pc = self.pc.wrapping_add(2);
                Ok(())
            },
            Instr::Ldm { rn, list } => {
                let (res, regs, a1) = load_low(bus, self.r, list as u32, self.r[rn as usize]);
                self.r = regs;
                res?;
                if !bit_exec(list as u32, rn as u32) {
                    self.r[rn as usize] = a1;
                }
                self.pc = self.pc.wrapping_add(2);
                Ok(())
            },
            _ => Ok(()),
        }
    }
}


/// The multiple-register and immediate-offset forms of the 32-bit memory group.
pub open spec fn mem32_block(t: Thumb2) -> bool {
    match t {
        Thumb2::Stmdb { .. } | Thumb2::Ldmia { .. } | Thumb2::LdmIA { .. } | Thumb2::StmIA { .. }
        | Thumb2::LdrLitW { .. } | Thumb2::LdrhImm { .. } | Thumb2::LdrImm { .. }
        | Thumb2::StrImm { .. } | Thumb2::LdrbImm { .. } | Thumb2::StrbImm { .. }
        | Thumb2::StrhImm { .. } => true,
        _ => false,
    }
}

impl Cpu {
    /// Load `size` bytes into any register and advance by 4.
    fn load_any_reg(&mut self, bus: &Bus, addr: u32, size: u8, rt: u8) -> (r: Result<(), EmuError>)
        requires
            size == 1 || size == 2 || size == 4,
            rt < 16,
        ensures
            (r, final(self).state(), bus@) == load_reg_then(old(self).state(), bus@, addr, size, rt, 4),
            books_kept(final(self), old(self)),
    {
        let v = load(bus, addr, size)?;
        self.set_reg(rt, v);
        self.pc = self.pc.wrapping_add(4);
        Ok(())
    }

    /// Store then advance by 4.
    fn store_adv(&mut self, bus: &mut Bus, addr: u32, val: u32, size: u8) -> (r: Result<(), EmuError>)
        requires
            (size == 1 && val < 0x100) || (size == 2 && val < 0x1_0000) || size == 4,
        ensures
            (r, final(self).state(), final(bus)@) == store_then(
                old(self).state(),
                old(bus)@,
                addr,
                val,
                size,
                advance(old(self).state(), 4),
            ),
            books_kept(final(self), old(self)),
    {
        store(bus, addr, val, size)?;
        self.pc = self.pc.wrapping_add(4);
        Ok(())
    }

    #[verifier::rlimit(60)]
    fn exec_mem32_block(&mut self, bus: &mut Bus, t: Thumb2) -> (r: Result<(), EmuError>)
        requires
            thumb2_wf(t),
            mem32_block(t),
        ensures
            (r, final(self).state(), final(bus)@) == mem32_spec(old(self).state(), old(bus)@, t),
            books_kept(final(self), old(self)),
    {
        match t {
            Thumb2::Stmdb { list } => {
                let count = popcount_exec(list as u32, 16);
                self.sp = self.sp.wrapping_sub(4 * count);
                let vals = self.reg_vec();
                let (res, _a1) = store_list(bus, &vals, list as u32, 15, self.sp);
                res?;
                self.pc = self.pc.wrapping_add(4);
                Ok(())
            },
            Thumb2::Ldmia { list } => {
                let sp = self.sp;
                let (res, a1, np) = self.load_core(bus, list as u32, sp);
                res?;
                self.sp = a1;
                self.pc = match np {
                    Some(p) => p,
                    None => self.pc.wrapping_add(4),
                };
                Ok(())
            },
            Thumb2::LdmIA { rn, list, wb } => {
                let base = self.reg(rn);
                let (res, a1, np) = self.load_core(bus, list as u32, base);
                res?;
                if wb {
                    self.set_reg(rn, a1);
                }
                self.pc = match np {
                    Some(p) => p,
                    None => self.pc.wrapping_add(4),
                };
                Ok(())
            },
            Thumb2::StmIA { rn, list } => {
                let vals = self.reg_vec();
                let (res, _a1) = store_list(bus, &vals, list as u32, 15, self.reg(rn));
                res?;
                self.pc = self.pc.wrapping_add(4);
                Ok(())
            },
            Thumb2::LdrLitW { rt, imm } => {
                let addr = (self.pc.wrapping_add(4) & 0xFFFF_FFFC).wrapping_add(imm as u32);
                self.load_any_reg(bus, addr, 4, rt)
            },
            Thumb2::LdrhImm { rt, rn, imm } => {
                let addr = self.reg(rn).wrapping_add(imm as u32);
                self.load_any_reg(bus, addr, 2, rt)
            },
            Thumb2::LdrImm { rt, rn, imm } => {
                let addr = self.reg(rn).wrapping_add(imm as u32);
                self.load_any_reg(bus, addr, 4, rt)
            },
            Thumb2::LdrbImm { rt, rn, imm } => {
                let addr = self.reg(rn).wrapping_add(imm as u32);
                self.load_any_reg(bus, addr, 1, rt)
            },
            Thumb2::StrImm { rt, rn, imm } => {
                let addr = self.reg(rn).wrapping_add(imm as u32);
                let v = self.reg(rt);
                self.store_adv(bus, addr, v, 4)
            },
            Thumb2::StrbImm { rt, rn, imm } => {
                let addr = self.reg(rn).wrapping_add(imm as u32);
                let v = ((self.reg(rt) & 0xFF) as u8) as u32;
                self.store_adv(bus, addr, v, 1)
            },
            Thumb2::StrhImm { rt, rn, imm } => {
                let addr = self.reg(rn).wrapping_add(imm as u32);
                let v = ((self.reg(rt) & 0xFFFF) as u16) as u32;
                self.store_adv(bus, addr, v, 2)
            },
            _ => Ok(()),
        }
    }

    fn exec_ldrstr_t4(&mut self, bus: &mut Bus, ld: bool, rt: u8, rn: u8, imm: u8, pre: bool, sub: bool, wb: bool) -> (r: Result<(), EmuError>)
        requires
            rt < 16,
            rn < 16,
        ensures
            (r, final(self).state(), final(bus)@) == mem32_spec(
                old(self).state(),
                old(bus)@,
                Thumb2::LdrStrT4 { load: ld, rt, rn, imm, pre, sub, wb },
            ),
            books_kept(final(self), old(self)),
    {
        let base = self.reg(rn);
        let oa = if sub { base.wrapping_sub(imm as u32) } else { base.wrapping_add(imm as u32) };
        let addr = if pre { oa } else { base };
        let mut br: Option<u32> = None;
        if ld {
            let v = bus.read_u32(addr)?;
            if rt == 15 {
                br = Some(v & 0xFFFF_FFFE);
            } else {
                self.set_reg(rt, v);
            }
        } else {
            let v = self.reg(rt);
            store(bus, addr, v, 4)?;
        }
        if wb {
            self.set_reg(rn, oa);
        }
        self.pc = match br {
            Some(p) => p,
            None => self.pc.wrapping_add(4),
        };
        Ok(())
    }

    fn exec_ldrhstrh_t4(&mut self, bus: &mut Bus, ld: bool, rt: u8, rn: u8, imm: u8, pre: bool, sub: bool, wb: bool) -> (r: Result<(), EmuError>)
        requires
            rt < 16,
            rn < 16,
        ensures
            (r, final(self).state(), final(bus)@) == mem32_spec(
                old(self).state(),
                old(bus)@,
                Thumb2::LdrhStrhT4 { load: ld, rt, rn, imm, pre, sub, wb },
            ),
            books_kept(final(self), old(self)),
    {
        let base = self.reg(rn);
        let oa = if sub { base.wrapping_sub(imm as u32) } else { base.wrapping_add(imm as u32) };
        let addr = if pre { oa } else { base };
        if ld {
            let v = load(bus, addr, 2)?;
            self.set_reg(rt, v);
        } else {
            let v = ((self.reg(rt) & 0xFFFF) as u16) as u32;
            store(bus, addr, v, 2)?;
        }
        if wb {
            self.set_reg(rn, oa);
        }
        self.pc = self.pc.wrapping_add(4);
        Ok(())
    }

    fn exec_ldrd_strd(&mut self, bus: &mut Bus, ld: bool, rt: u8, rt2: u8, rn: u8, imm: u8, pre: bool, sub: bool, wb: bool) -> (r: Result<(), EmuError>)
        requires
            rt < 16,
            rt2 < 16,
            rn < 16,
        ensures
            (r, final(self).state(), final(bus)@) == mem32_spec(
                old(self).state(),
                old(bus)@,
                Thumb2::LdrdStrd { load: ld, rt, rt2, rn, imm, pre, sub, wb },
            ),
            books_kept(final(self), old(self)),
    {
        let base = self.reg(rn);
        let off = (imm as u32) << 2u32;
        let moved = if sub { base.wrapping_sub(off) } else { base.wrapping_add(off) };
        let addr = if pre { moved } else { base };
        if ld {
            let v1 = bus.read_u32(addr)?;
            self.set_reg(rt, v1);
            let v2 = bus.read_u32(addr.wrapping_add(4))?;
            self.set_reg(rt2, v2);
        } else {
            let x1 = self.reg(rt);
            let x2 = self.reg(rt2);
            store(bus, addr, x1, 4)?;
            store(bus, addr.wrapping_add(4), x2, 4)?;
        }
        if wb || !pre {
            self.set_reg(rn, moved);
        }
        self.pc = self.pc.wrapping_add(4);
        Ok(())
    }

    fn exec_tbb(&mut self, bus: &mut Bus, half: bool, rm: u8) -> (r: Result<(), EmuError>)
        requires
            rm < 16,
        ensures
            (r, final(self).state(), final(bus)@) == mem32_spec(
                old(self).state(),
                old(bus)@,
                Thumb2::TbbTbh { half, rm },
            ),
            books_kept(final(self), old(self)),
    {
        let base = self.pc.wrapping_add(4) & 0xFFFF_FFFC;
        let idx = self.reg(rm);
        let entry = if half {
            load(bus, base.wrapping_add(idx.wrapping_mul(2)), 2)?
        } else {
            load(bus, base.wrapping_add(idx), 1)?
        };
        self.pc = base.wrapping_add(entry.wrapping_mul(2));
        Ok(())
    }

    #[verifier::rlimit(80)]
    fn exec_mem32_indexed(&mut self, bus: &mut Bus, t: Thumb2) -> (r: Result<(), EmuError>)
        requires
            thumb2_wf(t),
            is_mem32(t),
            !mem32_block(t),
        ensures
            (r, final(self).state(), final(bus)@) == mem32_spec(old(self).state(), old(bus)@, t),
            books_kept(final(self), old(self)),
    {
        match t {
            Thumb2::StrbT4 { rt, rn, imm, pre, sub } => {
                let base = self.reg(rn);
                let addr = if sub { base.wrapping_sub(imm as u32) } else { base.wrapping_add(imm as u32) };
                let v = ((self.reg(rt) & 0xFF) as u8) as u32;
                store(bus, if pre { addr } else { base }, v, 1)?;
                self.set_reg(rn, addr);
                self.pc = self.pc.wrapping_add(4);
                Ok(())
            },
            Thumb2::LdrbT4 { rt, rn, imm, pre, sub } => {
                let base = self.reg(rn);
                let addr = if sub { base.wrapping_sub(imm as u32) } else { base.wrapping_add(imm as u32) };
                let v = load(bus, if pre { addr } else { base }, 1)?;
                self.set_reg(rn, addr);
                self.set_reg(rt, v);
                self.pc = self.pc.wrapping_add(4);
                Ok(())
            },
            Thumb2::LdrStrT4 { load: ld, rt, rn, imm, pre, sub, wb } => self.exec_ldrstr_t4(bus, ld, rt, rn, imm, pre, sub, wb),
            Thumb2::LdrhStrhT4 { load: ld, rt, rn, imm, pre, sub, wb } => self.exec_ldrhstrh_t4(bus, ld, rt, rn, imm, pre, sub, wb),
            Thumb2::LdrdStrd { load: ld, rt, rt2, rn, imm, pre, sub, wb } => self.exec_ldrd_strd(bus, ld, rt, rt2, rn, imm, pre, sub, wb),
            Thumb2::TbbTbh { half, rm } => self.exec_tbb(bus, half, rm),
            Thumb2::LdrStrReg { load: ld, size, rt, rn, rm, shift } => {
                let addr = self.reg(rn).wrapping_add(self.reg(rm) << (shift as u32));
                let sz: u8 = if size == 1 { 1 } else if size == 2 { 2 } else { 4 };
                if ld {
                    self.load_any_reg(bus, addr, sz, rt)
                } else {
                    let x = self.reg(rt);
                    let val = if sz == 1 {
                        ((x & 0xFF) as u8) as u32
                    } else if sz == 2 {
                        ((x & 0xFFFF) as u16) as u32
                    } else {
                        x
                    };
                    self.store_adv(bus, addr, val, sz)
                }
            },
            _ => Ok(()),
        }
    }
}


fn is_mem32_exec(t: &Thumb2) -> (r: bool)
    ensures
        r == is_mem32(*t),
{
    match t {
        Thumb2::Stmdb { .. } | Thumb2::Ldmia { .. } | Thumb2::LdmIA { .. } | Thumb2::StmIA { .. }
        | Thumb2::LdrLitW { .. } | Thumb2::LdrhImm { .. } | Thumb2::LdrImm { .. }
        | Thumb2::StrImm { .. } | Thumb2::LdrbImm { .. } | Thumb2::StrbImm { .. }
        | Thumb2::StrhImm { .. } | Thumb2::StrbT4 { .. } | Thumb2::LdrbT4 { .. }
        | Thumb2::LdrStrT4 { .. } | Thumb2::LdrhStrhT4 { .. } | Thumb2::LdrdStrd { .. }
        | Thumb2::TbbTbh { .. } | Thumb2::LdrStrReg { .. } => true,
        _ => false,
    }
}

fn mem32_block_exec(t: &Thumb2) -> (r: bool)
    ensures
        r == mem32_block(*t),
{
    match t {
        Thumb2::Stmdb { .. } | Thumb2::Ldmia { .. } | Thumb2::LdmIA { .. } | Thumb2::StmIA { .. }
        | Thumb2::LdrLitW { .. } | Thumb2::LdrhImm { .. } | Thumb2::LdrImm { .. }
        | Thumb2::StrImm { .. } | Thumb2::LdrbImm { .. } | Thumb2::StrbImm { .. }
        | Thumb2::StrhImm { .. } => true,
        _ => false,
    }
}

fn is_mem16_exec(i: &Instr) -> (r: bool)
    requires
        !(*i is Thumb2),
    ensures
        r == is_mem(*i),
{
    match i {
        Instr::LdrLit { .. } | Instr::LsReg { .. } | Instr::LsImm { .. } | Instr::LshImm { .. }
        | Instr::LsSp { .. } | Instr::Push { .. } | Instr::Pop { .. } | Instr::Stm { .. }
        | Instr::Ldm { .. } => true,
        _ => false,
    }
}

/// Offset of a 32-bit BL from its two halfwords (see `bl_offset`).
fn bl_off(hw: u16, hw2: u16) -> (off: i32)
    ensures
        off == bl_offset(hw, hw2),
{
    let s = ((hw >> 10u16) % 2) as i32;
    let j1 = ((hw2 >> 13u16) % 2) as i32;
    let j2 = ((hw2 >> 11u16) % 2) as i32;
    let i1: i32 = if j1 == s { 1 } else { 0 };
    let i2: i32 = if j2 == s { 1 } else { 0 };
    let imm10 = (hw % 1024) as i32;
    let imm11 = (hw2 % 2048) as i32;
    i1 * 0x800000 + i2 * 0x400000 + imm10 * 0x1000 + imm11 * 2 - s * 0x1000000
}

/// Fetch and decode the instruction at `pc`.
fn fetch(bus: &Bus, pc: u32) -> (r: Result<(Instr, u32), EmuError>)
    ensures
        r == fetch_spec(bus@, pc),
        r matches Ok((i, _)) ==> instr_wf(i),
{
    let hw = bus.read_u16(pc)?;
    let top = hw >> 11u16;
    if top == 0x1D || top == 0x1E || top == 0x1F {
        let hw2 = bus.read_u16(pc.wrapping_add(2))?;
        if top == 0x1E && hw2 & 0xD000 == 0xD000 {
            Ok((Instr::Bl { off: bl_off(hw, hw2) }, 4))
        } else {
            proof {
                lemma_decode32_wf(hw, hw2);
            }
            match decode32(hw, hw2) {
                Some(i) => Ok((i, 4)),
                None => Err(EmuError::Undefined { pc, instr: hw }),
            }
        }
    } else {
        proof {
            lemma_decode_wf(hw);
        }
        match decode(hw) {
            Some(i) => Ok((i, 2)),
            None => Err(EmuError::Undefined { pc, instr: hw }),
        }
    }
}

impl Cpu {
    /// Execute a decoded instruction.
    pub fn execute(&mut self, bus: &mut Bus, instr: Instr) -> (r: Result<(), EmuError>)
        requires
            instr_wf(instr),
        ensures
            (r, final(self).state(), final(bus)@) == exec_spec(old(self).state(), old(bus)@, instr),
            books_kept(final(self), old(self)),
    {
        match instr {
            Instr::Thumb2(t) => {
                if mem32_block_exec(&t) {
                    self.exec_mem32_block(bus, t)
                } else if is_mem32_exec(&t) {
                    self.exec_mem32_indexed(bus, t)
                } else {
                    self.exec_alu32(t);
                    Ok(())
                }
            },
            _ => {
                if is_mem16_exec(&instr) {
                    self.exec_mem16(bus, instr)
                } else {
                    self.exec_alu16(instr);
                    Ok(())
                }
            },
        }
    }

    /// Fetch, decode and execute one instruction at `pc`, recording pc in
    /// the trace.
    pub fn step(&mut self, bus: &mut Bus) -> (r: Result<(), EmuError>)
        ensures
            (r, final(self).state(), final(bus)@) == step_spec(old(self).state(), old(bus)@),
            final(self).trace@ == trace_push(old(self).trace@, old(self).pc, TRACE_CAP as nat),
            final(self).min_sp == old(self).min_sp,
    {
        self.trace.push_back(self.pc);
        if self.trace.len() > TRACE_CAP {
            self.trace.pop_front();
        }
        bus.begin_step();
        let pc = self.pc;
        let (instr, size) = fetch(bus, pc)?;
        bus.advance_core_tick();
        if self.it_left > 0 {
            let c = ((self.it_conds >> 12u16) & 0xF) as u8;
            self.it_conds = self.it_conds << 4u16;
            self.it_left = self.it_left - 1;
            if !self.cond_passes(c) {
                self.pc = pc.wrapping_add(size);
                return Ok(());
            }
        }
        self.execute(bus, instr)
    }
}


/// Run from `s` until pc == `stop_pc`: the outcome (instructions executed,
/// or the fault), the core, the bus, the lowest sp and the trace. After the
/// `budget`-th executed instruction the run fails with `BudgetExceeded`.
pub open spec fn run_spec(
    s: Core,
    b: BusView,
    stop_pc: u32,
    budget: u64,
    n: u64,
    min_sp: u32,
    trace: Seq<u32>,
) -> (Result<u64, EmuError>, Core, BusView, u32, Seq<u32>)
    decreases budget - n,
{
    if s.pc == stop_pc {
        (Ok(n), s, b, min_sp, trace)
    } else {
        let t1 = trace_push(trace, s.pc, TRACE_CAP as nat);
        let (r, s1, b1) = step_spec(s, b);
        match r {
            Err(e) => (Err(e), s1, b1, min_sp, t1),
            Ok(_) => {
                let m1 = if s1.sp < min_sp { s1.sp } else { min_sp };
                if n + 1 >= budget {
                    (Err(EmuError::BudgetExceeded { executed: (n + 1) as u64 }), s1, b1, m1, t1)
                } else {
                    run_spec(s1, b1, stop_pc, budget, (n + 1) as u64, m1, t1)
                }
            },
        }
    }
}

impl Cpu {
    /// Step until `pc == stop_pc` (returning the number of instructions
    /// executed) or until `budget` instructions have run, tracking the lowest sp.
    pub fn run_until(&mut self, bus: &mut Bus, stop_pc: u32, budget: u64) -> (r: Result<u64, EmuError>)
        ensures
            (r, final(self).state(), final(bus)@, final(self).min_sp, final(self).trace@) == run_spec(
                old(self).state(),
                old(bus)@,
                stop_pc,
                budget,
                0,
                old(self).min_sp,
                old(self).trace@,
            ),
    {
        let mut n: u64 = 0;
        loop
            invariant
                n == 0 || n < budget,
                run_spec(
                    old(self).state(),
                    old(bus)@,
                    stop_pc,
                    budget,
                    0,
                    old(self).min_sp,
                    old(self).trace@,
                ) == run_spec(self.state(), bus@, stop_pc, budget, n, self.min_sp, self.trace@),
            decreases budget - n,
        {
            if self.pc == stop_pc {
                return Ok(n);
            }
            self.step(bus)?;
            if self.sp < self.min_sp {
                self.min_sp = self.sp;
            }
            n = n + 1;
            if n >= budget {
                return Err(EmuError::BudgetExceeded { executed: n });
            }
        }
    }
}

} // verus!
