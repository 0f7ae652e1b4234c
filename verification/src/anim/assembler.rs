//! Minimal Thumb bytecode builder: 16-bit instructions in little-endian
//! order, labels, branch and literal fixups, and a word-aligned literal pool.

use crate::emu::semantics::{wadd, wsub};
use crate::emu::thumb::{decode32_spec, Instr, Thumb2};
use vstd::prelude::*;

verus! {

/// Errors that can occur while assembling Thumb bytecode.
#[derive(Debug)]
pub enum AsmError {
    BranchOutOfRange(String),
    LiteralOutOfRange(String),
    UndefinedLabel(String),
    DuplicateLabel(String),
}

/// Errors that can occur while building an animation patch.
#[derive(Debug)]
pub enum AnimError {
    Asm(AsmError),
    Descriptor(String),
    CaveOverflow { body: usize, cave: usize },
}

/// What a fixup patches in once labels are known.
#[derive(Debug, Clone, Copy, PartialEq, Eq, Structural)]
pub enum FixupKind {
    /// B with an 11-bit halfword offset.
    B11,
    /// B<cond> with an 8-bit halfword offset.
    BCond8 { cond: u8 },
    /// LDR rt, [pc, #imm8*4] to a pool word.
    LdrLit8 { rt: u8 },
}

/// A placeholder instruction at `offset` that refers to `label`.
#[derive(Debug, Clone)]
pub struct Fixup {
    pub offset: usize,
    pub label: String,
    pub kind: FixupKind,
}

/// A literal pool word: a value, or the address of another pool word.
#[derive(Debug, Clone)]
pub enum PoolValue {
    Word(u32),
    AddrOf(String),
}

/// A fixup with its label as text.
pub struct FixupView {
    pub offset: usize,
    pub label: Seq<char>,
    pub kind: FixupKind,
}

/// A pool word with any label as text.
pub enum PoolItem {
    Word(u32),
    AddrOf(Seq<char>),
}

/// An [`AsmError`] with its label as text.
pub enum AsmErrorView {
    BranchOutOfRange(Seq<char>),
    LiteralOutOfRange(Seq<char>),
    UndefinedLabel(Seq<char>),
    DuplicateLabel(Seq<char>),
}

impl View for AsmError {
    type V = AsmErrorView;

    open spec fn view(&self) -> AsmErrorView {
        match self {
            AsmError::BranchOutOfRange(l) => AsmErrorView::BranchOutOfRange(l@),
            AsmError::LiteralOutOfRange(l) => AsmErrorView::LiteralOutOfRange(l@),
            AsmError::UndefinedLabel(l) => AsmErrorView::UndefinedLabel(l@),
            AsmError::DuplicateLabel(l) => AsmErrorView::DuplicateLabel(l@),
        }
    }
}

impl View for Fixup {
    type V = FixupView;

    open spec fn view(&self) -> FixupView {
        FixupView { offset: self.offset, label: self.label@, kind: self.kind }
    }
}

impl View for PoolValue {
    type V = PoolItem;

    open spec fn view(&self) -> PoolItem {
        match self {
            PoolValue::Word(w) => PoolItem::Word(*w),
            PoolValue::AddrOf(l) => PoolItem::AddrOf(l@),
        }
    }
}

/// Thumb bytecode builder based at `base`.
pub struct Asm {
    base: u32,
    code: Vec<u8>,
    labels: Vec<(String, usize)>,
    fixups: Vec<Fixup>,
    pool: Vec<(String, PoolValue)>,
}

/// Abstract state of an [`Asm`].
pub struct AsmView {
    pub base: u32,
    pub code: Seq<u8>,
    pub labels: Seq<(Seq<char>, usize)>,
    pub fixups: Seq<FixupView>,
    pub pool: Seq<(Seq<char>, PoolItem)>,
}

/// Entries with their names as text.
pub open spec fn named(entries: Seq<(String, usize)>) -> Seq<(Seq<char>, usize)> {
    entries.map_values(|e: (String, usize)| (e.0@, e.1))
}

impl View for Asm {
    type V = AsmView;

    closed spec fn view(&self) -> AsmView {
        AsmView {
            base: self.base,
            code: self.code@,
            labels: named(self.labels@),
            fixups: self.fixups@.map_values(|f: Fixup| f@),
            pool: self.pool@.map_values(|e: (String, PoolValue)| (e.0@, e.1@)),
        }
    }
}

/// Code is whole halfwords and every fixup placeholder lies inside it.
pub open spec fn asm_wf(v: AsmView) -> bool {
    &&& v.code.len() % 2 == 0
    &&& forall|i: int| 0 <= i < v.fixups.len() ==> #[trigger] v.fixups[i].offset + 2 <= v.code.len()
}

/// `v` with the halfword `hw` appended little-endian.
pub open spec fn emit_spec(v: AsmView, hw: u16) -> AsmView {
    AsmView { code: v.code.push((hw & 0xFF) as u8).push((hw >> 8u16) as u8), ..v }
}

/// `v` with a fixup placeholder `hw` for `label` appended.
pub open spec fn emit_fixup_spec(v: AsmView, hw: u16, label: Seq<char>, kind: FixupKind) -> AsmView {
    AsmView {
        fixups: v.fixups.push(FixupView { offset: v.code.len() as usize, label, kind }),
        ..emit_spec(v, hw)
    }
}

/// `v` with label `name` defined at the current offset.
pub open spec fn label_spec(v: AsmView, name: Seq<char>) -> AsmView {
    AsmView { labels: v.labels.push((name, v.code.len() as usize)), ..v }
}

/// `v` with a pool word.
pub open spec fn pool_word_spec(v: AsmView, label: Seq<char>, value: u32) -> AsmView {
    AsmView { pool: v.pool.push((label, PoolItem::Word(value))), ..v }
}

/// `v` with a pool word holding the address of pool word `target`.
pub open spec fn pool_addr_spec(v: AsmView, label: Seq<char>, target: Seq<char>) -> AsmView {
    AsmView { pool: v.pool.push((label, PoolItem::AddrOf(target))), ..v }
}

/// `v` with a 32-bit instruction appended.
pub open spec fn raw32_spec(v: AsmView, hw1: u16, hw2: u16) -> AsmView {
    emit_spec(emit_spec(v, hw1), hw2)
}

/// `v` with a B.W to the absolute address `target` appended.
pub open spec fn b_abs_spec(v: AsmView, target: u32) -> AsmView {
    let p = bw_pair_spec(wadd(v.base, v.code.len() as u32), target);
    raw32_spec(v, p.0, p.1)
}

/// `v` with `ldr rt, [pc, #..]` to pool word `label` appended.
pub open spec fn ldr_lit_spec(v: AsmView, rt: u8, label: Seq<char>) -> AsmView {
    emit_fixup_spec(v, 0x4800 | (lo3(rt) << 8u16), label, FixupKind::LdrLit8 { rt: rt & 7 })
}

/// `v` with `b<cond> label` appended.
pub open spec fn bcond_spec(v: AsmView, cond: u8, label: Seq<char>) -> AsmView {
    emit_fixup_spec(
        v,
        0xD000 | (((cond & 0xF) as u16) << 8u16),
        label,
        FixupKind::BCond8 { cond: cond & 0xF },
    )
}

/// Low-register field.
pub open spec fn lo3(r: u8) -> u16 {
    (r & 7) as u16
}

pub open spec fn reg2_fmt(base: u16, rdn: u8, rm: u8) -> u16 {
    base | (lo3(rm) << 3u16) | lo3(rdn)
}

pub open spec fn adds_reg_hw(rd: u8, rn: u8, rm: u8) -> u16 {
    0x1800 | (lo3(rm) << 6u16) | (lo3(rn) << 3u16) | lo3(rd)
}

pub open spec fn ls_reg_hw(op: u8, rt: u8, rn: u8, rm: u8) -> u16 {
    0x5000 | (lo3(op) << 9u16) | (lo3(rn) << 6u16) | (lo3(rm) << 3u16) | lo3(rt)
}

pub open spec fn imm8_fmt(base: u16, rdn: u8, imm8: u8) -> u16 {
    base | (lo3(rdn) << 8u16) | imm8 as u16
}

pub open spec fn imm5_fmt(base: u16, rt: u8, rn: u8, imm5: u8) -> u16 {
    base | (((imm5 & 0x1F) as u16) << 6u16) | (lo3(rn) << 3u16) | lo3(rt)
}

/// The first entry of `entries` named `name`.
pub open spec fn lookup(entries: Seq<(Seq<char>, usize)>, name: Seq<char>) -> Option<usize>
    decreases entries.len(),
{
    if entries.len() == 0 {
        None
    } else if entries[0].0 == name {
        Some(entries[0].1)
    } else {
        lookup(entries.drop_first(), name)
    }
}

/// A label of this name is defined.
pub open spec fn has_label(v: AsmView, name: Seq<char>) -> bool {
    lookup(v.labels, name) is Some
}

/// Code length rounded up to a word with a nop (0x46C0).
pub open spec fn padded(code: Seq<u8>) -> Seq<u8> {
    if code.len() % 4 != 0 {
        code.push(0xC0).push(0x46)
    } else {
        code
    }
}

/// Byte offsets of the pool words: (label, offset) after the padded code.
pub open spec fn pool_layout(v: AsmView) -> Seq<(Seq<char>, usize)> {
    Seq::new(
        v.pool.len(),
        |k: int| (v.pool[k].0, (padded(v.code).len() + 4 * k) as usize),
    )
}

/// Little-endian bytes of a word.
pub open spec fn le32(w: u32) -> Seq<u8> {
    seq![(w & 0xFF) as u8, ((w >> 8u32) & 0xFF) as u8, ((w >> 16u32) & 0xFF) as u8, (w >> 24u32) as u8]
}

/// The value of pool word `k`, or the undefined label it refers to.
pub open spec fn pool_word(v: AsmView, k: int) -> Result<u32, AsmErrorView> {
    match v.pool[k].1 {
        PoolItem::Word(w) => Ok(w),
        PoolItem::AddrOf(l) => match lookup(pool_layout(v), l) {
            Some(off) => Ok(wadd(v.base, off as u32)),
            None => Err(AsmErrorView::UndefinedLabel(l)),
        },
    }
}

/// The pool words `k..` as bytes, or the first undefined address label.
pub open spec fn pool_bytes(v: AsmView, k: nat) -> Result<Seq<u8>, AsmErrorView>
    decreases v.pool.len() - k,
{
    if k >= v.pool.len() {
        Ok(seq![])
    } else {
        match pool_word(v, k as int) {
            Err(e) => Err(e),
            Ok(w) => match pool_bytes(v, k + 1) {
                Err(e) => Err(e),
                Ok(rest) => Ok(le32(w) + rest),
            },
        }
    }
}

/// Division truncating toward zero.
pub open spec fn tdiv(a: int, d: int) -> int {
    if a >= 0 {
        a / d
    } else {
        -((-a) / d)
    }
}

/// The resolved halfword of a fixup, or its error.
pub open spec fn fixup_hw(v: AsmView, f: FixupView) -> Result<u16, AsmErrorView> {
    fixup_hw_in(v.labels, pool_layout(v), f)
}

/// The resolved halfword of a fixup against code labels and pool offsets.
pub open spec fn fixup_hw_in(
    labels: Seq<(Seq<char>, usize)>,
    layout: Seq<(Seq<char>, usize)>,
    f: FixupView,
) -> Result<u16, AsmErrorView> {
    match f.kind {
        FixupKind::B11 => match lookup(labels, f.label) {
            None => Err(AsmErrorView::UndefinedLabel(f.label)),
            Some(target) => {
                let off = tdiv(target - (f.offset + 4), 2);
                if !(-2048 <= off <= 2047) {
                    Err(AsmErrorView::BranchOutOfRange(f.label))
                } else {
                    Ok((0xE000 + off % 2048) as u16)
                }
            },
        },
        FixupKind::BCond8 { cond } => match lookup(labels, f.label) {
            None => Err(AsmErrorView::UndefinedLabel(f.label)),
            Some(target) => {
                let off = tdiv(target - (f.offset + 4), 2);
                if !(-128 <= off <= 127) {
                    Err(AsmErrorView::BranchOutOfRange(f.label))
                } else {
                    Ok((0xD000 + (cond as int) * 256 + off % 256) as u16)
                }
            },
        },
        FixupKind::LdrLit8 { rt } => match lookup(layout, f.label) {
            None => Err(AsmErrorView::UndefinedLabel(f.label)),
            Some(pool_off) => {
                let pc = f.offset + 4;
                let lit_base = pc - pc % 4;
                let imm8 = tdiv(pool_off - lit_base, 4);
                if !(0 <= imm8 <= 255) {
                    Err(AsmErrorView::LiteralOutOfRange(f.label))
                } else {
                    Ok((0x4800 + (rt as int) * 256 + imm8) as u16)
                }
            },
        },
    }
}

/// `code` with fixups `i..` resolved in order, or the first error.
pub open spec fn resolve_fixups(v: AsmView, code: Seq<u8>, i: nat) -> Result<Seq<u8>, AsmErrorView>
    decreases v.fixups.len() - i,
{
    if i >= v.fixups.len() {
        Ok(code)
    } else {
        let f = v.fixups[i as int];
        match fixup_hw(v, f) {
            Err(e) => Err(e),
            Ok(hw) => resolve_fixups(
                v,
                code.update(f.offset as int, (hw & 0xFF) as u8).update(
                    f.offset + 1,
                    (hw >> 8u16) as u8,
                ),
                i + 1,
            ),
        }
    }
}

/// The assembled bytes: padded code, then the pool, with fixups resolved.
pub open spec fn assemble(v: AsmView) -> Result<Seq<u8>, AsmErrorView> {
    match pool_bytes(v, 0) {
        Err(e) => Err(e),
        Ok(pb) => resolve_fixups(v, padded(v.code) + pb, 0),
    }
}

proof fn lemma_resolve_fixups_len(v: AsmView, code: Seq<u8>, i: nat)
    requires
        forall|j: int| 0 <= j < v.fixups.len() ==> #[trigger] v.fixups[j].offset + 2 <= code.len(),
    ensures
        resolve_fixups(v, code, i) matches Ok(r) ==> r.len() == code.len(),
    decreases v.fixups.len() - i,
{
    if i < v.fixups.len() {
        let f = v.fixups[i as int];
        if let Ok(hw) = fixup_hw(v, f) {
            lemma_resolve_fixups_len(
                v,
                code.update(f.offset as int, (hw & 0xFF) as u8).update(f.offset + 1, (hw >> 8u16) as u8),
                i + 1,
            );
        }
    }
}

proof fn lemma_pool_bytes_len(v: AsmView, k: nat)
    requires
        k <= v.pool.len(),
    ensures
        pool_bytes(v, k) matches Ok(pb) ==> pb.len() == 4 * (v.pool.len() - k),
    decreases v.pool.len() - k,
{
    if k < v.pool.len() {
        lemma_pool_bytes_len(v, k + 1);
    }
}

/// The assembled image is the code padded to a word boundary followed by
/// one word per pool entry, so its length is a multiple of 4.
pub proof fn lemma_assemble_len(v: AsmView)
    requires
        asm_wf(v),
    ensures
        assemble(v) matches Ok(b) ==> b.len() == padded(v.code).len() + 4 * v.pool.len() && b.len() % 4 == 0,
{
    lemma_pool_bytes_len(v, 0);
    if let Ok(pb) = pool_bytes(v, 0) {
        lemma_resolve_fixups_len(v, padded(v.code) + pb, 0);
    }
}

/// First halfword of a B.W whose offset from `pc + 4` is `d`.
pub open spec fn bw_hw1(d: u32) -> u16 {
    let off = d & 0x01FF_FFFF;
    let s = ((off >> 24u32) & 1) as u16;
    let imm10 = ((off >> 12u32) & 0x3FF) as u16;
    0xF000 | (s << 10u16) | imm10
}

/// Second halfword of a B.W whose offset from `pc + 4` is `d`.
pub open spec fn bw_hw2(d: u32) -> u16 {
    let off = d & 0x01FF_FFFF;
    let s = ((off >> 24u32) & 1) as u16;
    let i1 = ((off >> 23u32) & 1) as u16;
    let i2 = ((off >> 22u32) & 1) as u16;
    let j1 = s ^ (1 - i1) as u16;
    let j2 = s ^ (1 - i2) as u16;
    let imm11 = ((off >> 1u32) & 0x7FF) as u16;
    0x8000 | (j1 << 13u16) | 0x1000 | (j2 << 11u16) | imm11
}

/// Words of a B.W from `from` to `to` (see [`bw_pair`]).
pub open spec fn bw_pair_spec(from: u32, to: u32) -> (u16, u16) {
    let d = wsub(to, wadd(from, 4));
    (bw_hw1(d), bw_hw2(d))
}

/// 4-byte Thumb-2 `B.W` pair (two halfwords) branching from `from` to `to`:
/// the hook-site detour primitive.
pub fn bw_pair(from: u32, to: u32) -> (r: [u16; 2])
    ensures
        (r[0], r[1]) == bw_pair_spec(from, to),
{
    let off = to.wrapping_sub(from.wrapping_add(4)) & 0x01FF_FFFF;
    assert((off >> 23u32) & 1 <= 1 && (off >> 22u32) & 1 <= 1) by (bit_vector);
    let s = ((off >> 24u32) & 1) as u16;
    let i1 = ((off >> 23u32) & 1) as u16;
    let i2 = ((off >> 22u32) & 1) as u16;
    let j1 = s ^ (1 - i1);
    let j2 = s ^ (1 - i2);
    let imm10 = ((off >> 12u32) & 0x3FF) as u16;
    let imm11 = ((off >> 1u32) & 0x7FF) as u16;
    let hw1 = 0xF000 | (s << 10u16) | imm10;
    let hw2 = 0x8000 | (j1 << 13u16) | 0x1000 | (j2 << 11u16) | imm11;
    [hw1, hw2]
}


/// The first halfword of a B.W that the emulator's decoder reads as a
/// MOVW, MOVT, SBFX or UBFX, which it tests for before B.W.
pub open spec fn bw_shadowed(hw1: u16) -> bool {
    (hw1 & 0xFFF0) == 0xF340 || (hw1 & 0xFFF0) == 0xF3C0 || (hw1 & 0xFBF0) == 0xF240 || (hw1 & 0xFBF0) == 0xF2C0
}

/// The offset that the B.W arm of the decoder reads from `hw1, hw2`.
pub open spec fn bw_decoded_off(hw1: u16, hw2: u16) -> i32 {
    let s = ((hw1 >> 10u16) % 2) as i32;
    let j1 = ((hw2 >> 13u16) % 2) as i32;
    let j2 = ((hw2 >> 11u16) % 2) as i32;
    let i1 = if j1 == s { 1i32 } else { 0i32 };
    let i2 = if j2 == s { 1i32 } else { 0i32 };
    let imm10 = (hw1 % 1024) as i32;
    let imm11 = (hw2 % 2048) as i32;
    (i1 * 0x800000 + i2 * 0x400000 + imm10 * 0x1000 + imm11 * 2 - s * 0x1000000) as i32
}

proof fn lemma_bw_fields(d: u32)
    by (bit_vector)
    requires
        d & 1 == 0,
        d < 0x100_0000 || d >= 0xFF00_0000,
    ensures
        (bw_decoded_off(bw_hw1(d), bw_hw2(d)) as u32) == d,
        bw_hw1(d) >> 11u16 == 0x1E,
        bw_hw1(d) != 0xF8DF,
        bw_hw1(d) >> 6u16 != 0x3EC,
        bw_hw1(d) & 0xFE00 != 0xEA00,
        bw_hw2(d) & 0x8000 != 0,
        bw_hw2(d) & 0x8020 != 0,
        bw_hw2(d) & 0xF000 != 0x8000,
        bw_hw2(d) & 0xD000 != 0x8000,
        (bw_hw2(d) >> 15u16) & 1 == 1,
        (bw_hw2(d) >> 14u16) & 1 == 0,
{
}

/// A B.W pair from `from` to `to` decodes, under the emulator's decoder, as
/// a B.W that lands on `to`: for every even distance within the ±16 MB reach
/// of B.W, unless the decoder reads the first halfword as another
/// instruction first.
pub proof fn lemma_bw_pair_decodes(from: u32, to: u32)
    requires
        wsub(to, wadd(from, 4)) & 1 == 0,
        wsub(to, wadd(from, 4)) < 0x100_0000 || wsub(to, wadd(from, 4)) >= 0xFF00_0000,
        !bw_shadowed(bw_pair_spec(from, to).0),
    ensures
        decode32_spec(bw_pair_spec(from, to).0, bw_pair_spec(from, to).1) matches Some(
            Instr::Thumb2(Thumb2::B { off }),
        ) && wadd(wadd(from, 4), off as u32) == to,
{
    let d = wsub(to, wadd(from, 4));
    lemma_bw_fields(d);
    let hw1 = bw_hw1(d);
    let hw2 = bw_hw2(d);
    assert(decode32_spec(hw1, hw2) == Some(Instr::Thumb2(Thumb2::B { off: bw_decoded_off(hw1, hw2) })));
}


proof fn lemma_bw_near_not_shadowed(d: u32)
    by (bit_vector)
    requires
        d < 0x4_0000 || d >= 0xFFFC_0000,
    ensures
        !bw_shadowed(bw_hw1(d)),
{
}

/// Within ±256 KB, every even B.W pair from `from` to `to` decodes as a B.W
/// that lands on `to`: at that reach the first halfword never reads as a
/// MOVW, MOVT, SBFX or UBFX.
pub proof fn lemma_bw_pair_decodes_near(from: u32, to: u32)
    requires
        wsub(to, wadd(from, 4)) & 1 == 0,
        wsub(to, wadd(from, 4)) < 0x4_0000 || wsub(to, wadd(from, 4)) >= 0xFFFC_0000,
    ensures
        decode32_spec(bw_pair_spec(from, to).0, bw_pair_spec(from, to).1) matches Some(
            Instr::Thumb2(Thumb2::B { off }),
        ) && wadd(wadd(from, 4), off as u32) == to,
{
    lemma_bw_near_not_shadowed(wsub(to, wadd(from, 4)));
    lemma_bw_pair_decodes(from, to);
}

/// First entry of `entries` named `name`.
fn find(entries: &Vec<(String, usize)>, name: &String) -> (r: Option<usize>)
    ensures
        r == lookup(named(entries@), name@),
{
    let ghost all = named(entries@);
    let mut i: usize = 0;
    assert(all.subrange(0, all.len() as int) =~= all);
    while i < entries.len()
        invariant
            0 <= i <= entries@.len(),
            all == named(entries@),
            lookup(all, name@) == lookup(all.subrange(i as int, all.len() as int), name@),
        decreases entries@.len() - i,
    {
        let ghost rest = all.subrange(i as int, all.len() as int);
        assert(rest.drop_first() =~= all.subrange(i + 1, all.len() as int));
        if entries[i].0 == *name {
            return Some(entries[i].1);
        }
        i = i + 1;
    }
    None
}

impl Asm {
    /// An empty builder based at `base`.
    pub fn new(base: u32) -> (a: Self)
        ensures
            asm_wf(a@),
            a@ == (AsmView {
                base,
                code: seq![],
                labels: seq![],
                fixups: seq![],
                pool: seq![],
            }),
    {
        let a = Asm {
            base,
            code: Vec::new(),
            labels: Vec::new(),
            fixups: Vec::new(),
            pool: Vec::new(),
        };
        assert(a@.code =~= seq![]);
        assert(a@.labels =~= seq![]);
        assert(a@.fixups =~= seq![]);
        assert(a@.pool =~= seq![]);
        a
    }

    fn emit(&mut self, hw: u16)
        requires
            asm_wf(old(self)@),
        ensures
            asm_wf(final(self)@),
            final(self)@ == emit_spec(old(self)@, hw),
    {
        self.code.push((hw & 0xFF) as u8);
        self.code.push((hw >> 8u16) as u8);
    }

    /// `movs rd, #imm`.
    pub fn movs(&mut self, rd: u8, imm: u8)
        requires
            asm_wf(old(self)@),
        ensures
            asm_wf(final(self)@),
            final(self)@ == emit_spec(old(self)@, imm8_fmt(0x2000, rd, imm)),
    {
        self.emit(0x2000 | (((rd & 0x7) as u16) << 8u16) | imm as u16)
    }

    /// `nop` hint (0x46C0), also the pool-alignment filler.
    pub fn nop(&mut self)
        requires
            asm_wf(old(self)@),
        ensures
            asm_wf(final(self)@),
            final(self)@ == emit_spec(old(self)@, 0x46C0),
    {
        self.emit(0x46C0)
    }
    /// `ldr rt, [rn, #imm5*4]`: word load.
    pub fn ldr_imm(&mut self, rt: u8, rn: u8, imm5: u8)
        requires
            asm_wf(old(self)@),
        ensures
            asm_wf(final(self)@),
            final(self)@ == emit_spec(old(self)@, imm5_fmt(0x6800, rt, rn, imm5)),
    {
        self.emit(0x6800 | (((imm5 & 0x1F) as u16) << 6u16) | (((rn & 0x7) as u16) << 3u16) | (rt & 0x7) as u16)
    }

    /// `str rt, [rn, #imm5*4]`: word store.
    pub fn str_imm(&mut self, rt: u8, rn: u8, imm5: u8)
        requires
            asm_wf(old(self)@),
        ensures
            asm_wf(final(self)@),
            final(self)@ == emit_spec(old(self)@, imm5_fmt(0x6000, rt, rn, imm5)),
    {
        self.emit(0x6000 | (((imm5 & 0x1F) as u16) << 6u16) | (((rn & 0x7) as u16) << 3u16) | (rt & 0x7) as u16)
    }

    /// `strb rt, [rn, #imm5]`: byte store.
    pub fn strb_imm(&mut self, rt: u8, rn: u8, imm5: u8)
        requires
            asm_wf(old(self)@),
        ensures
            asm_wf(final(self)@),
            final(self)@ == emit_spec(old(self)@, imm5_fmt(0x7000, rt, rn, imm5)),
    {
        self.emit(0x7000 | (((imm5 & 0x1F) as u16) << 6u16) | (((rn & 0x7) as u16) << 3u16) | (rt & 0x7) as u16)
    }

    /// `ldrb rt, [rn, #imm5]`: byte load.
    pub fn ldrb_imm(&mut self, rt: u8, rn: u8, imm5: u8)
        requires
            asm_wf(old(self)@),
        ensures
            asm_wf(final(self)@),
            final(self)@ == emit_spec(old(self)@, imm5_fmt(0x7800, rt, rn, imm5)),
    {
        self.emit(0x7800 | (((imm5 & 0x1F) as u16) << 6u16) | (((rn & 0x7) as u16) << 3u16) | (rt & 0x7) as u16)
    }

    /// Register-offset load/store; `op` as in the decoder's `LsReg` (0 = STR, 2 = STRB, 4 = LDR, 6 = LDRB).
    pub fn ls_reg(&mut self, op: u8, rt: u8, rn: u8, rm: u8)
        requires
            asm_wf(old(self)@),
        ensures
            asm_wf(final(self)@),
            final(self)@ == emit_spec(old(self)@, ls_reg_hw(op, rt, rn, rm)),
    {
        self.emit(0x5000 | (((op & 0x7) as u16) << 9u16) | (((rn & 0x7) as u16) << 6u16) | (((rm & 0x7) as u16) << 3u16) | (rt & 0x7) as u16)
    }

    /// `adds rd, rn, rm`.
    pub fn adds_reg(&mut self, rd: u8, rn: u8, rm: u8)
        requires
            asm_wf(old(self)@),
        ensures
            asm_wf(final(self)@),
            final(self)@ == emit_spec(old(self)@, adds_reg_hw(rd, rn, rm)),
    {
        self.emit(0x1800 | (((rm & 0x7) as u16) << 6u16) | (((rn & 0x7) as u16) << 3u16) | (rd & 0x7) as u16)
    }

    /// `adds rdn, #imm8`.
    pub fn adds(&mut self, rdn: u8, imm8: u8)
        requires
            asm_wf(old(self)@),
        ensures
            asm_wf(final(self)@),
            final(self)@ == emit_spec(old(self)@, imm8_fmt(0x3000, rdn, imm8)),
    {
        self.emit(0x3000 | (((rdn & 0x7) as u16) << 8u16) | imm8 as u16)
    }

    /// `subs rdn, #imm8`.
    pub fn subs(&mut self, rdn: u8, imm8: u8)
        requires
            asm_wf(old(self)@),
        ensures
            asm_wf(final(self)@),
            final(self)@ == emit_spec(old(self)@, imm8_fmt(0x3800, rdn, imm8)),
    {
        self.emit(0x3800 | (((rdn & 0x7) as u16) << 8u16) | imm8 as u16)
    }

    /// `cmp rn, #imm8`.
    pub fn cmp(&mut self, rdn: u8, imm8: u8)
        requires
            asm_wf(old(self)@),
        ensures
            asm_wf(final(self)@),
            final(self)@ == emit_spec(old(self)@, imm8_fmt(0x2800, rdn, imm8)),
    {
        self.emit_imm8(0x2800, rdn, imm8)
    }

    fn emit_imm8(&mut self, base: u16, rdn: u8, imm8: u8)
        requires
            asm_wf(old(self)@),
        ensures
            asm_wf(final(self)@),
            final(self)@ == emit_spec(old(self)@, imm8_fmt(base, rdn, imm8)),
    {
        self.emit(base | (((rdn & 0x7) as u16) << 8u16) | imm8 as u16)
    }

    /// `ands rdn, rm`.
    pub fn ands(&mut self, rdn: u8, rm: u8)
        requires
            asm_wf(old(self)@),
        ensures
            asm_wf(final(self)@),
            final(self)@ == emit_spec(old(self)@, reg2_fmt(0x4000, rdn, rm)),
    {
        self.emit(0x4000 | (((rm & 0x7) as u16) << 3u16) | (rdn & 0x7) as u16)
    }

    /// `eors rdn, rm`.
    pub fn eors(&mut self, rdn: u8, rm: u8)
        requires
            asm_wf(old(self)@),
        ensures
            asm_wf(final(self)@),
            final(self)@ == emit_spec(old(self)@, reg2_fmt(0x4040, rdn, rm)),
    {
        self.emit(0x4040 | (((rm & 0x7) as u16) << 3u16) | (rdn & 0x7) as u16)
    }

    /// `muls rdm, rn, rdm`.
    pub fn muls(&mut self, rdn: u8, rm: u8)
        requires
            asm_wf(old(self)@),
        ensures
            asm_wf(final(self)@),
            final(self)@ == emit_spec(old(self)@, reg2_fmt(0x4340, rdn, rm)),
    {
        self.emit(0x4340 | (((rm & 0x7) as u16) << 3u16) | (rdn & 0x7) as u16)
    }

    /// `lsls rd, rm, #imm5`.
    pub fn lsls(&mut self, rd: u8, rm: u8, imm5: u8)
        requires
            asm_wf(old(self)@),
        ensures
            asm_wf(final(self)@),
            final(self)@ == emit_spec(old(self)@, imm5_fmt(0x0000, rd, rm, imm5)),
    {
        self.emit(0x0000 | (((imm5 & 0x1F) as u16) << 6u16) | (((rm & 0x7) as u16) << 3u16) | (rd & 0x7) as u16)
    }

    /// `lsrs rd, rm, #imm5`.
    pub fn lsrs(&mut self, rd: u8, rm: u8, imm5: u8)
        requires
            asm_wf(old(self)@),
        ensures
            asm_wf(final(self)@),
            final(self)@ == emit_spec(old(self)@, imm5_fmt(0x0800, rd, rm, imm5)),
    {
        self.emit(0x0800 | (((imm5 & 0x1F) as u16) << 6u16) | (((rm & 0x7) as u16) << 3u16) | (rd & 0x7) as u16)
    }

    /// Two halfwords as they are (a 32-bit instruction).
    pub fn raw32(&mut self, hw1: u16, hw2: u16)
        requires
            asm_wf(old(self)@),
        ensures
            asm_wf(final(self)@),
            final(self)@ == raw32_spec(old(self)@, hw1, hw2),
    {
        self.emit(hw1);
        self.emit(hw2);
    }

    /// `push {regs}` (register numbers taken mod 16 into the list).
    pub fn push(&mut self, regs: &[u8])
        requires
            asm_wf(old(self)@),
        ensures
            asm_wf(final(self)@),
            final(self)@ == emit_spec(old(self)@, 0xB400 | reg_list(regs@)),
    {
        let list = list_of(regs);
        self.emit(0xB400 | list)
    }

    /// `pop {regs}` (register numbers taken mod 16 into the list).
    pub fn pop(&mut self, regs: &[u8])
        requires
            asm_wf(old(self)@),
        ensures
            asm_wf(final(self)@),
            final(self)@ == emit_spec(old(self)@, 0xBC00 | reg_list(regs@)),
    {
        let list = list_of(regs);
        self.emit(0xBC00 | list)
    }

    fn emit_fixup(&mut self, hw: u16, label: &str, kind: FixupKind)
        requires
            asm_wf(old(self)@),
        ensures
            asm_wf(final(self)@),
            final(self)@ == emit_fixup_spec(old(self)@, hw, label@, kind),
    {
        let f = Fixup { offset: self.code.len(), label: label.to_owned(), kind };
        self.emit(hw);
        self.fixups.push(f);
        assert(self@.fixups =~= emit_fixup_spec(old(self)@, hw, label@, kind).fixups);
    }

    /// `ldr rt, [pc, #imm8*4]` loading the pool word labelled `label`.
    pub fn ldr_lit(&mut self, rt: u8, label: &str)
        requires
            asm_wf(old(self)@),
        ensures
            asm_wf(final(self)@),
            final(self)@ == ldr_lit_spec(old(self)@, rt, label@),
    {
        self.emit_fixup(0x4800 | (((rt & 0x7) as u16) << 8u16), label, FixupKind::LdrLit8 { rt: rt & 0x7 })
    }

    /// Unconditional branch to `label` (11-bit halfword offset).
    pub fn b(&mut self, label: &str)
        requires
            asm_wf(old(self)@),
        ensures
            asm_wf(final(self)@),
            final(self)@ == emit_fixup_spec(old(self)@, 0xE000, label@, FixupKind::B11),
    {
        self.emit_fixup(0xE000, label, FixupKind::B11)
    }

    /// Conditional branch to `label`; `cond` is the condition nibble.
    pub fn bcond(&mut self, cond: u8, label: &str)
        requires
            asm_wf(old(self)@),
        ensures
            asm_wf(final(self)@),
            final(self)@ == bcond_spec(old(self)@, cond, label@),
    {
        self.emit_fixup(0xD000 | (((cond & 0xF) as u16) << 8u16), label, FixupKind::BCond8 { cond: cond & 0xF })
    }

    /// B.W to the absolute address `target`, from the current position.
    pub fn b_abs(&mut self, target: u32)
        requires
            asm_wf(old(self)@),
        ensures
            asm_wf(final(self)@),
            final(self)@ == b_abs_spec(old(self)@, target),
    {
        let from = self.base.wrapping_add(self.code.len() as u32);
        let hw = bw_pair(from, target);
        self.emit(hw[0]);
        self.emit(hw[1]);
    }

    /// Define a label at the current code offset; each name once.
    pub fn label(&mut self, name: &str)
        requires
            asm_wf(old(self)@),
            !has_label(old(self)@, name@),
        ensures
            asm_wf(final(self)@),
            final(self)@ == label_spec(old(self)@, name@),
    {
        let off = self.code.len();
        self.labels.push((name.to_owned(), off));
        assert(self@.labels =~= old(self)@.labels.push((name@, off)));
    }

    /// Add a word to the literal pool under `label` (for `ldr_lit`); a
    /// repeated label keeps naming the first such word.
    pub fn pool_word(&mut self, label: &str, value: u32)
        requires
            asm_wf(old(self)@),
        ensures
            asm_wf(final(self)@),
            final(self)@ == pool_word_spec(old(self)@, label@, value),
    {
        self.pool.push((label.to_owned(), PoolValue::Word(value)));
        assert(self@.pool =~= old(self)@.pool.push((label@, PoolItem::Word(value))));
    }

    /// Add a pool word under `label` holding the address of the pool word
    /// labelled `target`.
    pub fn pool_addr(&mut self, label: &str, target: &str)
        requires
            asm_wf(old(self)@),
        ensures
            asm_wf(final(self)@),
            final(self)@ == pool_addr_spec(old(self)@, label@, target@),
    {
        self.pool.push((label.to_owned(), PoolValue::AddrOf(target.to_owned())));
        assert(self@.pool =~= old(self)@.pool.push((label@, PoolItem::AddrOf(target@))));
    }

    /// The base address used for branch and literal calculations.
    pub fn base(&self) -> (r: u32)
        ensures
            r == self@.base,
    {
        self.base
    }

    /// Current code length in bytes.
    pub fn len(&self) -> (r: usize)
        ensures
            r == self@.code.len(),
    {
        self.code.len()
    }

}

/// Register list with bit (r mod 16) set for each r.
pub open spec fn reg_list(regs: Seq<u8>) -> u16
    decreases regs.len(),
{
    if regs.len() == 0 {
        0
    } else {
        reg_list(regs.drop_last()) | (1u16 << ((regs.last() & 0xF) as u16))
    }
}

fn list_of(regs: &[u8]) -> (list: u16)
    ensures
        list == reg_list(regs@),
{
    let mut list: u16 = 0;
    let mut i: usize = 0;
    while i < regs.len()
        invariant
            0 <= i <= regs@.len(),
            list == reg_list(regs@.subrange(0, i as int)),
        decreases regs@.len() - i,
    {
        assert(regs@.subrange(0, i + 1).drop_last() =~= regs@.subrange(0, i as int));
        let r = regs[i];
        assert(r & 0xF < 16) by (bit_vector);
        list = list | (1u16 << ((r & 0xF) as u16));
        i = i + 1;
    }
    assert(regs@.subrange(0, regs@.len() as int) =~= regs@);
    list
}


/// `a / d` truncated toward zero, for d > 0.
fn tdiv_exec(a: i128, d: i128) -> (q: i128)
    requires
        d > 0,
        -0x10_0000_0000_0000_0000 < a < 0x10_0000_0000_0000_0000,
    ensures
        q == tdiv(a as int, d as int),
{
    if a >= 0 {
        a / d
    } else {
        -((-a) / d)
    }
}

fn resolve_one(labels: &Vec<(String, usize)>, layout: &Vec<(String, usize)>, f: &Fixup) -> (r: Result<
    u16,
    AsmError,
>)
    ensures
        match (r, fixup_hw_in(named(labels@), named(layout@), f@)) {
            (Ok(a), Ok(b)) => a == b,
            (Err(a), Err(b)) => a@ == b,
            _ => false,
        },
{
    match f.kind {
        FixupKind::B11 => match find(labels, &f.label) {
            None => Err(AsmError::UndefinedLabel(f.label.clone())),
            Some(target) => {
                let off = tdiv_exec(target as i128 - (f.offset as i128 + 4), 2);
                if !(-2048 <= off && off <= 2047) {
                    Err(AsmError::BranchOutOfRange(f.label.clone()))
                } else {
                    let m = if off >= 0 { off } else { off + 2048 };
                    Ok((0xE000 + m) as u16)
                }
            },
        },
        FixupKind::BCond8 { cond } => match find(labels, &f.label) {
            None => Err(AsmError::UndefinedLabel(f.label.clone())),
            Some(target) => {
                let off = tdiv_exec(target as i128 - (f.offset as i128 + 4), 2);
                if !(-128 <= off && off <= 127) {
                    Err(AsmError::BranchOutOfRange(f.label.clone()))
                } else {
                    let m = if off >= 0 { off } else { off + 256 };
                    Ok((0xD000 + (cond as i128) * 256 + m) as u16)
                }
            },
        },
        FixupKind::LdrLit8 { rt } => match find(layout, &f.label) {
            None => Err(AsmError::UndefinedLabel(f.label.clone())),
            Some(pool_off) => {
                let pc = f.offset as i128 + 4;
                let lit_base = pc - pc % 4;
                let imm8 = tdiv_exec(pool_off as i128 - lit_base, 4);
                if !(0 <= imm8 && imm8 <= 255) {
                    Err(AsmError::LiteralOutOfRange(f.label.clone()))
                } else {
                    Ok((0x4800 + (rt as i128) * 256 + imm8) as u16)
                }
            },
        },
    }
}

impl Asm {
    /// Resolve labels, append the literal pool word-aligned after the code,
    /// and return the assembled bytes.
    #[verifier::loop_isolation(false)]
    pub fn finish(self) -> (r: Result<Vec<u8>, AsmError>)
        requires
            asm_wf(self@),
            padded(self@.code).len() + 4 * self@.pool.len() + 4 <= usize::MAX,
        ensures
            r is Ok <==> assemble(self@) is Ok,
            r matches Ok(b) ==> assemble(self@) == Ok::<Seq<u8>, AsmErrorView>(b@),
            r matches Err(e) ==> assemble(self@) == Err::<Seq<u8>, AsmErrorView>(e@),
    {
        let ghost v = self@;
        let Asm { base, code, labels, fixups, pool } = self;
        let mut code = code;
        if code.len() % 4 != 0 {
            code.push(0xC0);
            code.push(0x46);
        }
        assert(code@ == padded(v.code));
        let start = code.len();
        // Offsets of the pool words.
        let mut layout: Vec<(String, usize)> = Vec::new();
        let mut k: usize = 0;
        while k < pool.len()
            invariant
                0 <= k <= pool@.len(),
                v.pool == pool@.map_values(|e: (String, PoolValue)| (e.0@, e.1@)),
                start == padded(v.code).len(),
                start + 4 * pool@.len() + 4 <= usize::MAX,
                named(layout@) == pool_layout(v).subrange(0, k as int),
            decreases pool@.len() - k,
        {
            assert(v.pool[k as int].0 == pool@[k as int].0@);
            let ghost lay0 = layout@;
            let entry = (pool[k].0.clone(), start + 4 * k);
            layout.push(entry);
            assert(layout@ == lay0.push(entry));
            assert(named(layout@) =~= named(lay0).push((entry.0@, entry.1)));
            assert(named(layout@) =~= pool_layout(v).subrange(0, k + 1));
            k = k + 1;
        }
        assert(named(layout@) =~= pool_layout(v));
        // The pool words themselves.
        let mut k: usize = 0;
        while k < pool.len()
            invariant
                0 <= k <= pool@.len(),
                v.pool == pool@.map_values(|e: (String, PoolValue)| (e.0@, e.1@)),
                base == v.base,
                named(layout@) == pool_layout(v),
                code@.len() == start + 4 * k,
                code@.subrange(0, start as int) == padded(v.code),
                pool_bytes(v, 0) == match pool_bytes(v, k as nat) {
                    Ok(rest) => Ok(code@.subrange(start as int, code@.len() as int) + rest),
                    Err(e) => Err(e),
                },
                start == padded(v.code).len(),
                start + 4 * pool@.len() + 4 <= usize::MAX,
            decreases pool@.len() - k,
        {
            assert(v.pool[k as int] == (pool@[k as int].0@, pool@[k as int].1@));
            let w: u32 = match &pool[k].1 {
                PoolValue::Word(w) => *w,
                PoolValue::AddrOf(l) => match find(&layout, l) {
                    Some(off) => base.wrapping_add(off as u32),
                    None => {
                        let e = AsmError::UndefinedLabel(l.clone());
                        assert(pool_word(v, k as int) == Err::<u32, AsmErrorView>(e@));
                        assert(pool_bytes(v, k as nat) == Err::<Seq<u8>, AsmErrorView>(e@));
                        assert(assemble(v) == Err::<Seq<u8>, AsmErrorView>(e@));
                        return Err(e);
                    },
                },
            };
            assert(pool_word(v, k as int) == Ok::<u32, AsmErrorView>(w));
            assert(pool_bytes(v, k as nat) == match pool_bytes(v, (k + 1) as nat) {
                Ok(rest) => Ok(le32(w) + rest),
                Err(e) => Err::<Seq<u8>, AsmErrorView>(e),
            });
            let ghost before = code@;
            code.push((w & 0xFF) as u8);
            code.push(((w >> 8u32) & 0xFF) as u8);
            code.push(((w >> 16u32) & 0xFF) as u8);
            code.push((w >> 24u32) as u8);
            assert(code@.subrange(start as int, code@.len() as int) =~= before.subrange(
                start as int,
                before.len() as int,
            ) + le32(w));
            assert(code@.subrange(0, start as int) =~= before.subrange(0, start as int));
            proof {
                let bb = before.subrange(start as int, before.len() as int);
                match pool_bytes(v, (k + 1) as nat) {
                    Ok(rest) => {
                        assert(bb + (le32(w) + rest) =~= (bb + le32(w)) + rest);
                    },
                    Err(_) => {},
                }
            }
            k = k + 1;
        }
        assert(code@ =~= padded(v.code) + code@.subrange(start as int, code@.len() as int));
        // Fixups, in order.
        let labels_ref = &labels;
        let mut i: usize = 0;
        while i < fixups.len()
            invariant
                0 <= i <= fixups@.len(),
                v.fixups == fixups@.map_values(|f: Fixup| f@),
                v.labels == named(labels_ref@),
                named(layout@) == pool_layout(v),
                asm_wf(v),
                code@.len() >= v.code.len(),
                assemble(v) == resolve_fixups(v, code@, i as nat),
            decreases fixups@.len() - i,
        {
            let f = &fixups[i];
            assert(v.fixups[i as int] == f@);
            let clen = code.len();
            assert(f.offset + 2 <= clen);
            match resolve_one(labels_ref, &layout, f) {
                Err(e) => {
                    assert(resolve_fixups(v, code@, i as nat) == Err::<Seq<u8>, AsmErrorView>(e@));
                    assert(assemble(v) == Err::<Seq<u8>, AsmErrorView>(e@));
                    return Err(e);
                },
                Ok(hw) => {
                    code.set(f.offset, (hw & 0xFF) as u8);
                    code.set(f.offset + 1, (hw >> 8u16) as u8);
                },
            }
            i = i + 1;
        }
        Ok(code)
    }
}

/// A name defined after `labels` is found where it was first defined.
pub proof fn lemma_lookup_push(labels: Seq<(Seq<char>, usize)>, e: (Seq<char>, usize), name: Seq<char>)
    ensures
        lookup(labels.push(e), name) == if lookup(labels, name) is Some {
            lookup(labels, name)
        } else if e.0 == name {
            Some(e.1)
        } else {
            None::<usize>
        },
    decreases labels.len(),
{
    if labels.len() > 0 {
        assert(labels.push(e).drop_first() =~= labels.drop_first().push(e));
        assert(labels.push(e)[0] == labels[0]);
        lemma_lookup_push(labels.drop_first(), e, name);
    } else {
        assert(labels.push(e).drop_first() =~= Seq::<(Seq<char>, usize)>::empty());
        assert(labels.push(e)[0] == e);
        assert(lookup(Seq::<(Seq<char>, usize)>::empty(), name) is None);
        assert(labels =~= Seq::<(Seq<char>, usize)>::empty());
    }
}
} // verus!
