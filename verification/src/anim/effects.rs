//! Animation effects for the timed-out screen: integer reference
//! implementations of a family of "fade" effects and the Thumb code caves
//! that perform them on the device, plus the patches that inject a cave.
//!
//! Buffer geometry: 64x128 1bpp, horizontally packed, MSB = leftmost pixel
//! (`byte = y*8 + x/8`). A 64-byte group `i >> 6` spans 8 full rows.

use crate::anim::assembler::{
    adds_reg_hw, asm_wf, assemble, b_abs_spec, bcond_spec, bw_pair, bw_pair_spec, emit_spec,
    has_label, imm5_fmt, imm8_fmt, label_spec, ldr_lit_spec, lemma_lookup_push, lookup, ls_reg_hw,
    padded, pool_addr_spec, pool_word_spec, raw32_spec, reg2_fmt, AnimError, Asm, AsmError, AsmView,
};
use crate::emu::semantics::wadd;
use crate::firmware::patch::{Patch, PatchModification};
use crate::firmware::text::{hex_text, push_hex_digits, push_text, string_from_chars};
use vstd::prelude::*;

verus! {

/// Stock bytes at the hook site: `tst.w r2, #0x20000`. An image without
/// them there is another build (or already detoured).
pub const HOOK_SITE_STOCK_BYTES: [u8; 4] = [0x12, 0xf4, 0x00, 0x3f];

/// 16-entry quarter-wave sine table, values 0..=255.
pub const SINE_LUT: [u8; 16] = [0, 25, 50, 74, 98, 120, 142, 162, 180, 197, 212, 225, 236, 245, 251, 255];

/// Half-amplitude threshold: bytes in bands darker than this are cleared.
pub const THRESHOLD: u8 = 128;

/// Config-byte values selecting each effect (0 = off).
pub const CONFIG_GRADIENT_FADE: u8 = 2;
pub const CONFIG_CENTER_PULSE: u8 = 3;
pub const CONFIG_DIAGONAL_SWEEP: u8 = 4;
pub const CONFIG_RIPPLING_WAVE: u8 = 5;
pub const CONFIG_CLOCK_ANIMATION: u8 = 6;

/// The sine table as a sequence.
pub open spec fn lut() -> Seq<u8> {
    seq![0u8, 25, 50, 74, 98, 120, 142, 162, 180, 197, 212, 225, 236, 245, 251, 255]
}

/// A byte with table index `idx` survives the fade.
pub open spec fn kept(idx: usize) -> bool {
    lut()[(idx % 16) as int] >= 128
}

/// The faded byte: cleared when its band is darker than the threshold.
pub open spec fn faded(b: u8, idx: usize) -> u8 {
    if kept(idx) {
        b
    } else {
        0
    }
}

fn lut_at(i: usize) -> (v: u8)
    requires
        i < 16,
    ensures
        v == lut()[i as int],
{
    let t = SINE_LUT;
    assert(t@ =~= lut());
    t[i]
}

/// Byte `j` went from `b0` to `b1` under the index function.
pub open spec fn fades_by<F: Fn(usize, u32) -> usize>(index: F, phase: u32, j: int, b0: u8, b1: u8) -> bool {
    exists|r: usize| #[trigger] index.ensures((j as usize, phase), r) && b1 == faded(b0, r)
}

/// The whole fade family: `index` maps byte offset `i` and `phase` to a
/// table index; bytes whose band brightness is below the threshold are
/// cleared in place.
pub fn fade_apply<F: Fn(usize, u32) -> usize>(buf: &mut [u8], width: usize, phase: u32, index: F)
    requires
        forall|i: usize| 0 <= i < old(buf)@.len() ==> #[trigger] index.requires((i, phase)),
    ensures
        final(buf)@.len() == old(buf)@.len(),
        forall|i: int|
            0 <= i < old(buf)@.len() ==> #[trigger] fades_by(index, phase, i, old(buf)@[i], final(buf)@[i]),
{
    let n = buf.len();
    let mut i: usize = 0;
    while i < n
        invariant
            0 <= i <= n,
            n == buf@.len(),
            buf@.len() == old(buf)@.len(),
            forall|i: usize| 0 <= i < old(buf)@.len() ==> #[trigger] index.requires((i, phase)),
            forall|j: int| i <= j < n ==> buf@[j] == old(buf)@[j],
            forall|j: int|
                0 <= j < i ==> #[trigger] fades_by(index, phase, j, old(buf)@[j], buf@[j]),
        decreases n - i,
    {
        let r = index(i, phase);
        assert(r & 15 == r % 16 && r & 15 < 16) by (bit_vector);
        let ghost before = buf@;
        if lut_at(r & 15) < THRESHOLD {
            buf[i] = 0;
        }
        assert(index.ensures((i, phase), r) && buf@[i as int] == faded(old(buf)@[i as int], r));
        assert forall|j: int| 0 <= j < i + 1 implies #[trigger] fades_by(
            index,
            phase,
            j,
            old(buf)@[j],
            buf@[j],
        ) by {
            if j < i {
                assert(before[j] == buf@[j]);
                assert(fades_by(index, phase, j, old(buf)@[j], before[j]));
            } else {
                assert(index.ensures((j as usize, phase), r));
            }
        }
        i = i + 1;
    }
}


/// Table index of byte `i` under Gradient Fade: the 8-row band `i / width`
/// shifted by the phase, quartered (period 64 phases).
pub open spec fn gradient_index(i: usize, width: usize, phase: u32) -> usize {
    (((((i / width) as u32) * 8 + phase) as u32) >> 2u32) as usize
}

/// Table index of byte `i` under Center Pulse: band distance from the
/// vertical centre (`band ^ 7`) plus the phase (period 16).
pub open spec fn center_index(i: usize, width: usize, phase: u32) -> usize {
    wadd(((i / width) as u32) ^ 7, phase) as usize
}

/// Table index of byte `i` under Diagonal Sweep: band `i >> 6` plus the
/// byte's column group `(i & 7) << 1` plus the phase (period 16).
pub open spec fn diagonal_index(i: usize, phase: u32) -> usize {
    wadd(wadd((i >> 6usize) as u32, ((i & 7) << 1usize) as u32), phase) as usize
}

/// Gradient Fade (config 2): horizontal brightness bands sweep vertically.
pub fn gradient_fade_apply(buf: &mut [u8], width: usize, _height: usize, phase: u32)
    requires
        old(buf)@.len() > 0 ==> width > 0,
        old(buf)@.len() > 0 ==> (old(buf)@.len() - 1) / (width as int) * 8 + phase <= u32::MAX,
    ensures
        final(buf)@.len() == old(buf)@.len(),
        forall|i: int|
            0 <= i < old(buf)@.len() ==> #[trigger] final(buf)@[i] == faded(
                old(buf)@[i],
                gradient_index(i as usize, width, phase),
            ),
{
    let len = buf.len();
    let ghost b0 = buf@;
    let f = |i: usize, ph: u32| -> (r: usize)
        requires
            width > 0,
            i < len,
            (len - 1) / (width as int) * 8 + ph <= u32::MAX,
        ensures
            r == gradient_index(i, width, ph),
        {
            proof {
                vstd::arithmetic::div_mod::lemma_div_is_ordered(i as int, len - 1, width as int);
            }
            ((((i / width) as u32) * 8 + ph) >> 2u32) as usize
        };
    fade_apply(buf, width, phase, f);
    assert forall|i: int| 0 <= i < b0.len() implies #[trigger] buf@[i] == faded(
        b0[i],
        gradient_index(i as usize, width, phase),
    ) by {
        assert(fades_by(f, phase, i, b0[i], buf@[i]));
    }
}

/// Center Pulse (config 3): brightness rings pulse outward from the
/// vertical centre of the screen.
pub fn center_pulse_apply(buf: &mut [u8], width: usize, phase: u32)
    requires
        old(buf)@.len() > 0 ==> width > 0,
    ensures
        final(buf)@.len() == old(buf)@.len(),
        forall|i: int|
            0 <= i < old(buf)@.len() ==> #[trigger] final(buf)@[i] == faded(
                old(buf)@[i],
                center_index(i as usize, width, phase),
            ),
{
    let ghost b0 = buf@;
    let f = |i: usize, ph: u32| -> (r: usize)
        requires
            width > 0,
        ensures
            r == center_index(i, width, ph),
        {
            let d = (i / width) as u32 ^ 7;
            d.wrapping_add(ph) as usize
        };
    fade_apply(buf, width, phase, f);
    assert forall|i: int| 0 <= i < b0.len() implies #[trigger] buf@[i] == faded(
        b0[i],
        center_index(i as usize, width, phase),
    ) by {
        assert(fades_by(f, phase, i, b0[i], buf@[i]));
    }
}

/// Diagonal Sweep (config 4): diagonal bands march corner to corner.
pub fn diagonal_sweep_apply(buf: &mut [u8], _width: usize, phase: u32)
    ensures
        final(buf)@.len() == old(buf)@.len(),
        forall|i: int|
            0 <= i < old(buf)@.len() ==> #[trigger] final(buf)@[i] == faded(
                old(buf)@[i],
                diagonal_index(i as usize, phase),
            ),
{
    let ghost b0 = buf@;
    let f = |i: usize, ph: u32| -> (r: usize)
        ensures
            r == diagonal_index(i, ph),
        {
            let xg = ((i & 7) << 1usize) as u32;
            let s = (i >> 6usize) as u32;
            s.wrapping_add(xg).wrapping_add(ph) as usize
        };
    fade_apply(buf, 64, phase, f);
    assert forall|i: int| 0 <= i < b0.len() implies #[trigger] buf@[i] == faded(
        b0[i],
        diagonal_index(i as usize, phase),
    ) by {
        assert(fades_by(f, phase, i, b0[i], buf@[i]));
    }
}

/// The fade family only clears whole bytes in place: each byte stays as it
/// was or becomes 0.
pub proof fn lemma_fade_clears_whole_bytes(b: u8, idx: usize)
    ensures
        faded(b, idx) == b || faded(b, idx) == 0,
{
}

/// Gradient Fade repeats every 64 phases.
pub proof fn lemma_gradient_period(b: u8, i: usize, width: usize, phase: u32)
    requires
        width > 0,
        (i / width) * 8 + phase + 64 <= u32::MAX,
    ensures
        faded(b, gradient_index(i, width, (phase + 64) as u32)) == faded(b, gradient_index(i, width, phase)),
{
    let band = (i / width) as u32;
    assert((i / width) * 8 <= u32::MAX);
    let x: u32 = (band * 8 + phase) as u32;
    assert(((x + 64) as u32) >> 2u32 == (x >> 2u32) + 16) by (bit_vector)
        requires
            x + 64 <= u32::MAX,
    ;
    assert((((band * 8 + (phase + 64)) as u32) as u32) == (x + 64) as u32);
}

proof fn lemma_wrapping_period(x: u32, phase: u32)
    ensures
        (wadd(x, wadd(phase, 16)) as usize) % 16 == (wadd(x, phase) as usize) % 16,
{
    assert(((x + ((phase + 16) as u32) as u32) as u32) % 16 == ((x + phase) as u32) % 16) by (bit_vector);
}

/// Center Pulse repeats every 16 phases (phases wrap around).
pub proof fn lemma_center_period(b: u8, i: usize, width: usize, phase: u32)
    requires
        width > 0,
    ensures
        faded(b, center_index(i, width, wadd(phase, 16))) == faded(b, center_index(i, width, phase)),
{
    lemma_wrapping_period(((i / width) as u32) ^ 7, phase);
}

/// Diagonal Sweep repeats every 16 phases (phases wrap around).
pub proof fn lemma_diagonal_period(b: u8, i: usize, phase: u32)
    ensures
        faded(b, diagonal_index(i, wadd(phase, 16))) == faded(b, diagonal_index(i, phase)),
{
    lemma_wrapping_period(wadd((i >> 6usize) as u32, ((i & 7) << 1usize) as u32), phase);
}

/// Gradient Fade bands are horizontal: the bytes of one row band (the same
/// `i / width`) share one brightness.
pub proof fn lemma_gradient_band_constant(i: usize, j: usize, width: usize, phase: u32)
    requires
        width > 0,
        i / width == j / width,
    ensures
        gradient_index(i, width, phase) == gradient_index(j, width, phase),
{
}

/// The descriptor's code cave: erased flash at `start`, `size` bytes.
#[derive(Debug, Clone, Copy, PartialEq, Eq, Structural)]
pub struct CodeCave {
    pub start: u32,
    pub size: usize,
}

/// The descriptor's `animation` block.
#[derive(Debug, Clone, Copy, PartialEq, Eq, Structural)]
pub struct AnimationDesc {
    /// Address of the 4-byte instruction the detour replaces.
    pub hook_site: u32,
    /// Where the cave resumes the stock code.
    pub hook_resume: u32,
    pub code_cave: CodeCave,
    /// Spare dataflash byte that selects the effect at run time.
    pub config_byte_addr: u32,
    /// RAM word the cave bumps once per frame.
    pub phase_global: u32,
    /// Device-status word the hook-site instruction tests.
    pub status_word_addr: u32,
    /// Base register value the hook loads the status word through; must
    /// be `status_word_addr - 4`.
    pub status_base_addr: u32,
}

impl AnimationDesc {
    /// The status base sits 4 bytes below the status word.
    pub fn status_base_consistent(&self) -> (r: bool)
        ensures
            r == (self.status_base_addr + 4 == self.status_word_addr),
    {
        self.status_base_addr as u64 + 4 == self.status_word_addr as u64
    }
}

/// The message of an animation block whose status base is misplaced.
pub open spec fn status_base_message(anim: AnimationDesc) -> Seq<char> {
    "status_base_addr 0x"@ + hex_text(anim.status_base_addr as nat) + " must be status_word_addr 0x"@ + hex_text(
        anim.status_word_addr as nat,
    ) + " - 4"@
}

/// The check of an animation block: its status base must sit 4 bytes below
/// its status word.
pub fn check_status_base(anim: &AnimationDesc) -> (r: Result<(), AnimError>)
    ensures
        r is Ok <==> anim.status_base_addr + 4 == anim.status_word_addr,
        r matches Err(e) ==> (e matches AnimError::Descriptor(m) && m@ == status_base_message(*anim)),
{
    if anim.status_base_consistent() {
        return Ok(());
    }
    let mut m: Vec<char> = Vec::new();
    push_text(&mut m, "status_base_addr 0x");
    push_hex_digits(&mut m, anim.status_base_addr as u128);
    push_text(&mut m, " must be status_word_addr 0x");
    push_hex_digits(&mut m, anim.status_word_addr as u128);
    push_text(&mut m, " - 4");
    Err(AnimError::Descriptor(string_from_chars(m.as_slice())))
}

/// The checks of what the patch builders read from a descriptor: the status
/// base of the animation block, then a display buffer that does not end
/// below its start.
pub fn check_animation_doc(anim: &AnimationDesc, display_start: u32, display_end: u32) -> (r: Result<(), AnimError>)
    ensures
        r is Ok <==> anim.status_base_addr + 4 == anim.status_word_addr && display_start <= display_end,
        anim.status_base_addr + 4 != anim.status_word_addr ==> (r matches Err(AnimError::Descriptor(m)) && m@
            == status_base_message(*anim)),
        anim.status_base_addr + 4 == anim.status_word_addr && display_end < display_start ==> (r matches Err(
            AnimError::Descriptor(m),
        ) && m@ == "display_buffer.end below display_buffer.start"@),
{
    match check_status_base(anim) {
        Err(e) => {
            return Err(e);
        },
        Ok(()) => {},
    }
    if display_end < display_start {
        return Err(AnimError::Descriptor("display_buffer.end below display_buffer.start".to_owned()));
    }
    Ok(())
}

/// The hook site holds the stock instruction and the code cave, where it
/// lies inside the image, is erased flash.
pub open spec fn supports_animation(image: Seq<u8>, anim: AnimationDesc) -> bool {
    let hook = anim.hook_site as int;
    let cave = anim.code_cave.start as int;
    let cave_end = if cave + anim.code_cave.size > image.len() {
        image.len() as int
    } else {
        cave + anim.code_cave.size
    };
    &&& hook + 4 <= image.len()
    &&& image.subrange(hook, hook + 4) == seq![0x12u8, 0xf4, 0x00, 0x3f]
    &&& forall|j: int| cave <= j < cave_end ==> #[trigger] image[j] == 0xFF
}

/// Gate for offering animation patches on an opened image: the hook site
/// must still hold the stock timeout test (right build, not already patched)
/// and the code cave must be erased flash; a cave past the image end counts
/// as erased.
pub fn image_supports_animation(image: &[u8], anim: &AnimationDesc) -> (r: bool)
    ensures
        r == supports_animation(image@, *anim),
{
    let hook = anim.hook_site as u64;
    let ilen: usize = image.len();
    let len = ilen as u64;
    if len < hook + 4 {
        return false;
    }
    let h = hook as usize;
    let stock = HOOK_SITE_STOCK_BYTES;
    let mut k: usize = 0;
    while k < 4
        invariant
            0 <= k <= 4,
            h + 4 <= ilen,
            ilen == image@.len(),
            h == anim.hook_site,
            stock@ == seq![0x12u8, 0xf4, 0x00, 0x3f],
            forall|j: int| 0 <= j < k ==> image@[h + j] == stock@[j],
        decreases 4 - k,
    {
        if image[h + k] != stock[k] {
            assert(image@.subrange(h as int, h + 4)[k as int] != stock@[k as int]);
            return false;
        }
        k = k + 1;
    }
    assert(image@.subrange(h as int, h + 4) =~= seq![0x12u8, 0xf4, 0x00, 0x3f]);
    let cave = anim.code_cave.start as u128;
    let size = anim.code_cave.size as u128;
    let len = ilen as u128;
    let cave_end = if cave + size > len { len } else { cave + size };
    let mut j = cave;
    while j < cave_end
        invariant
            cave <= j,
            cave == anim.code_cave.start,
            cave_end <= len,
            len == image@.len(),
            len == ilen,
            cave_end == if cave + anim.code_cave.size > image@.len() {
                image@.len() as int
            } else {
                cave + anim.code_cave.size
            },
            forall|t: int| cave <= t < j ==> #[trigger] image@[t] == 0xFF,
        decreases cave_end - j,
    {
        if image[j as usize] != 0xFF {
            return false;
        }
        j = j + 1;
    }
    true
}

/// Which table-index computation a cave runs.
#[derive(Debug, Clone, Copy, PartialEq, Eq, Structural)]
pub enum IndexKind {
    Gradient,
    Center,
    Diagonal,
}

/// The LUT index code of each effect (leaves the index in r3).
pub open spec fn index_code_spec(v: AsmView, kind: IndexKind) -> AsmView {
    match kind {
        IndexKind::Gradient => {
            let v = emit_spec(v, imm5_fmt(0x0800, 3, 0, 6));
            let v = emit_spec(v, imm5_fmt(0x0000, 3, 3, 3));
            let v = emit_spec(v, adds_reg_hw(3, 3, 4));
            let v = emit_spec(v, imm5_fmt(0x0800, 3, 3, 2));
            emit_spec(v, reg2_fmt(0x4000, 3, 6))
        },
        IndexKind::Center => {
            let v = emit_spec(v, imm5_fmt(0x0800, 3, 0, 6));
            let v = emit_spec(v, imm8_fmt(0x2000, 2, 7));
            let v = emit_spec(v, reg2_fmt(0x4040, 3, 2));
            let v = emit_spec(v, adds_reg_hw(3, 3, 4));
            emit_spec(v, reg2_fmt(0x4000, 3, 6))
        },
        IndexKind::Diagonal => {
            let v = emit_spec(v, imm5_fmt(0x0000, 3, 0, 29));
            let v = emit_spec(v, imm5_fmt(0x0800, 3, 3, 28));
            let v = emit_spec(v, imm5_fmt(0x0800, 2, 0, 6));
            let v = emit_spec(v, adds_reg_hw(3, 3, 2));
            let v = emit_spec(v, adds_reg_hw(3, 3, 4));
            emit_spec(v, reg2_fmt(0x4000, 3, 6))
        },
    }
}

/// Word `k` (0..3) of the sine table, little-endian.
pub open spec fn lut_word(k: int) -> u32 {
    (lut()[4 * k] as u32) | ((lut()[4 * k + 1] as u32) << 8u32) | ((lut()[4 * k + 2] as u32)
        << 16u32) | ((lut()[4 * k + 3] as u32) << 24u32)
}

/// Head of the cave: replay the overwritten test, gate on the config byte,
/// bump the phase global and set up the loop registers.
pub open spec fn cave_head_spec(v: AsmView, config: u8) -> AsmView {
    let v = raw32_spec(v, 0xF412, 0x3F00);
    let v = bcond_spec(v, 0, "resume"@);
    let v = ldr_lit_spec(v, 0, "cfg"@);
    let v = emit_spec(v, imm5_fmt(0x7800, 0, 0, 0));
    let v = emit_spec(v, imm8_fmt(0x2800, 0, config));
    let v = bcond_spec(v, 1, "resume"@);
    let v = ldr_lit_spec(v, 0, "phg"@);
    let v = emit_spec(v, imm5_fmt(0x6800, 4, 0, 0));
    let v = emit_spec(v, imm8_fmt(0x3000, 4, 1));
    let v = emit_spec(v, imm5_fmt(0x6000, 4, 0, 0));
    let v = emit_spec(v, imm8_fmt(0x2000, 0, 0));
    let v = ldr_lit_spec(v, 1, "buf"@);
    let v = ldr_lit_spec(v, 5, "lutp"@);
    let v = ldr_lit_spec(v, 7, "len"@);
    emit_spec(v, imm8_fmt(0x2000, 6, 15))
}

/// The fade loop over the buffer, with the effect's index code.
pub open spec fn cave_loop_spec(v: AsmView, kind: IndexKind) -> AsmView {
    let v = label_spec(v, "loop"@);
    let v = index_code_spec(v, kind);
    let v = emit_spec(v, ls_reg_hw(6, 2, 5, 3));
    let v = emit_spec(v, imm8_fmt(0x2800, 2, 128));
    let v = bcond_spec(v, 0xA, "keep"@);
    let v = emit_spec(v, imm8_fmt(0x2000, 2, 0));
    let v = emit_spec(v, ls_reg_hw(2, 2, 1, 0));
    let v = label_spec(v, "keep"@);
    let v = emit_spec(v, imm8_fmt(0x3000, 0, 1));
    let v = emit_spec(v, imm8_fmt(0x3800, 7, 1));
    bcond_spec(v, 1, "loop"@)
}

/// Tail: restore r2, r3 and the flags the stock path expects, resume, and
/// the literal pool.
pub open spec fn cave_tail_spec(v: AsmView, anim: AnimationDesc, buf_addr: u32, buf_len: u32) -> AsmView {
    let v = ldr_lit_spec(v, 3, "stw"@);
    let v = emit_spec(v, imm5_fmt(0x6800, 2, 3, 0));
    let v = ldr_lit_spec(v, 3, "stb"@);
    let v = raw32_spec(v, 0xF412, 0x3F00);
    let v = label_spec(v, "resume"@);
    let v = b_abs_spec(v, anim.hook_resume);
    let v = pool_word_spec(v, "cfg"@, anim.config_byte_addr);
    let v = pool_word_spec(v, "phg"@, anim.phase_global);
    let v = pool_word_spec(v, "buf"@, buf_addr);
    let v = pool_word_spec(v, "len"@, buf_len);
    let v = pool_word_spec(v, "stw"@, anim.status_word_addr);
    let v = pool_word_spec(v, "stb"@, anim.status_base_addr);
    let v = pool_addr_spec(v, "lutp"@, "lut"@);
    let v = pool_word_spec(v, "lut"@, lut_word(0));
    let v = pool_word_spec(v, "lut"@, lut_word(1));
    let v = pool_word_spec(v, "lut"@, lut_word(2));
    pool_word_spec(v, "lut"@, lut_word(3))
}

/// The whole cave body appended to `v`.
pub open spec fn cave_spec(
    v: AsmView,
    anim: AnimationDesc,
    buf_addr: u32,
    buf_len: u32,
    config: u8,
    kind: IndexKind,
) -> AsmView {
    cave_tail_spec(cave_loop_spec(cave_head_spec(v, config), kind), anim, buf_addr, buf_len)
}

/// The current code offset.
pub open spec fn code_end(v: AsmView) -> usize {
    v.code.len() as usize
}

/// The cave's own labels are still free in `v`.
pub open spec fn cave_labels_free(v: AsmView) -> bool {
    !has_label(v, "loop"@) && !has_label(v, "keep"@) && !has_label(v, "resume"@)
}

fn emit_index(a: &mut Asm, kind: IndexKind)
    requires
        asm_wf(old(a)@),
    ensures
        asm_wf(final(a)@),
        final(a)@ == index_code_spec(old(a)@, kind),
{
    match kind {
        IndexKind::Gradient => {
            a.lsrs(3, 0, 6);
            a.lsls(3, 3, 3);
            a.adds_reg(3, 3, 4);
            a.lsrs(3, 3, 2);
            a.ands(3, 6);
        },
        IndexKind::Center => {
            a.lsrs(3, 0, 6);
            a.movs(2, 7);
            a.eors(3, 2);
            a.adds_reg(3, 3, 4);
            a.ands(3, 6);
        },
        IndexKind::Diagonal => {
            a.lsls(3, 0, 29);
            a.lsrs(3, 3, 28);
            a.lsrs(2, 0, 6);
            a.adds_reg(3, 3, 2);
            a.adds_reg(3, 3, 4);
            a.ands(3, 6);
        },
    }
}

fn emit_head(a: &mut Asm, config: u8)
    requires
        asm_wf(old(a)@),
    ensures
        asm_wf(final(a)@),
        final(a)@ == cave_head_spec(old(a)@, config),
{
    a.raw32(0xF412, 0x3F00);
    a.bcond(0x0, "resume");
    a.ldr_lit(0, "cfg");
    a.ldrb_imm(0, 0, 0);
    a.cmp(0, config);
    a.bcond(0x1, "resume");
    a.ldr_lit(0, "phg");
    a.ldr_imm(4, 0, 0);
    a.adds(4, 1);
    a.str_imm(4, 0, 0);
    a.movs(0, 0);
    a.ldr_lit(1, "buf");
    a.ldr_lit(5, "lutp");
    a.ldr_lit(7, "len");
    a.movs(6, 15);
}

fn emit_loop(a: &mut Asm, kind: IndexKind)
    requires
        asm_wf(old(a)@),
        !has_label(old(a)@, "loop"@),
        !has_label(old(a)@, "keep"@),
    ensures
        asm_wf(final(a)@),
        final(a)@ == cave_loop_spec(old(a)@, kind),
{
    proof {
        reveal_strlit("loop");
        reveal_strlit("keep");
    }
    let ghost v0 = a@;
    a.label("loop");
    proof {
        lemma_lookup_push(v0.labels, ("loop"@, code_end(v0)), "keep"@);
    }
    let ghost v1 = a@;
    emit_index(a, kind);
    a.ls_reg(6, 2, 5, 3);
    a.cmp(2, THRESHOLD);
    a.bcond(0xA, "keep");
    a.movs(2, 0);
    a.ls_reg(2, 2, 1, 0);
    let ghost v2 = a@;
    assert(v2.labels == v1.labels);
    assert("loop"@[0] != "keep"@[0]);
    assert(v1.labels == v0.labels.push(("loop"@, code_end(v0))));
    assert(!has_label(v2, "keep"@));
    a.label("keep");
    proof {
        lemma_lookup_push(v2.labels, ("keep"@, code_end(v2)), "keep"@);
        lemma_lookup_push(v0.labels, ("loop"@, code_end(v0)), "keep"@);
    }
    a.adds(0, 1);
    a.subs(7, 1);
    a.bcond(0x1, "loop");
}

fn lut_word_exec(k: usize) -> (w: u32)
    requires
        k < 4,
    ensures
        w == lut_word(k as int),
{
    (lut_at(4 * k) as u32) | ((lut_at(4 * k + 1) as u32) << 8u32) | ((lut_at(4 * k + 2) as u32)
        << 16u32) | ((lut_at(4 * k + 3) as u32) << 24u32)
}

fn emit_tail(a: &mut Asm, anim: &AnimationDesc, buf_addr: u32, buf_len: u32)
    requires
        asm_wf(old(a)@),
        !has_label(old(a)@, "resume"@),
    ensures
        asm_wf(final(a)@),
        final(a)@ == cave_tail_spec(old(a)@, *anim, buf_addr, buf_len),
{
    a.ldr_lit(3, "stw");
    a.ldr_imm(2, 3, 0);
    a.ldr_lit(3, "stb");
    a.raw32(0xF412, 0x3F00);
    a.label("resume");
    a.b_abs(anim.hook_resume);
    a.pool_word("cfg", anim.config_byte_addr);
    a.pool_word("phg", anim.phase_global);
    a.pool_word("buf", buf_addr);
    a.pool_word("len", buf_len);
    a.pool_word("stw", anim.status_word_addr);
    a.pool_word("stb", anim.status_base_addr);
    a.pool_addr("lutp", "lut");
    a.pool_word("lut", lut_word_exec(0));
    a.pool_word("lut", lut_word_exec(1));
    a.pool_word("lut", lut_word_exec(2));
    a.pool_word("lut", lut_word_exec(3));
}

/// Append the shared cave body: replay the overwritten timeout test, gate on
/// the config byte, bump the phase global, fade the buffer with the
/// effect's index code, restore the hook-site registers and flags, and
/// branch back to `hook_resume`.
fn emit_effect_cave(
    a: &mut Asm,
    anim: &AnimationDesc,
    buf_addr: u32,
    buf_len: u32,
    config_value: u8,
    kind: IndexKind,
) -> (r: Result<(), AsmError>)
    requires
        asm_wf(old(a)@),
        cave_labels_free(old(a)@),
    ensures
        r is Ok,
        asm_wf(final(a)@),
        final(a)@ == cave_spec(old(a)@, *anim, buf_addr, buf_len, config_value, kind),
{
    proof {
        reveal_strlit("loop");
        reveal_strlit("keep");
        reveal_strlit("resume");
    }
    let ghost v0 = a@;
    emit_head(a, config_value);
    let ghost v1 = a@;
    assert(v1.labels == v0.labels);
    emit_loop(a, kind);
    let ghost v2 = a@;
    proof {
        let v3 = label_spec(v1, "loop"@);
        let v4 = label_spec(
            emit_spec(
                emit_spec(
                    bcond_spec(
                        emit_spec(emit_spec(index_code_spec(v3, kind), ls_reg_hw(6, 2, 5, 3)), imm8_fmt(0x2800, 2, 128)),
                        0xA,
                        "keep"@,
                    ),
                    imm8_fmt(0x2000, 2, 0),
                ),
                ls_reg_hw(2, 2, 1, 0),
            ),
            "keep"@,
        );
        assert(v2.labels == v4.labels);
        assert(index_code_spec(v3, kind).labels == v3.labels);
        assert("resume"@[0] != "loop"@[0] && "resume"@[0] != "keep"@[0]);
        lemma_lookup_push(v1.labels, ("loop"@, code_end(v1)), "resume"@);
        lemma_lookup_push(v3.labels, (
            "keep"@,
            code_end(
                emit_spec(
                    emit_spec(
                        bcond_spec(
                            emit_spec(emit_spec(index_code_spec(v3, kind), ls_reg_hw(6, 2, 5, 3)), imm8_fmt(0x2800, 2, 128)),
                            0xA,
                            "keep"@,
                        ),
                        imm8_fmt(0x2000, 2, 0),
                    ),
                    ls_reg_hw(2, 2, 1, 0),
                ),
            ),
        ), "resume"@);
    }
    emit_tail(a, anim, buf_addr, buf_len);
    Ok(())
}

/// Gradient Fade cave (config 2).
pub fn emit_gradient_fade(a: &mut Asm, anim: &AnimationDesc, buf_addr: u32, buf_len: u32) -> (r: Result<(), AsmError>)
    requires
        asm_wf(old(a)@),
        cave_labels_free(old(a)@),
    ensures
        r is Ok,
        asm_wf(final(a)@),
        final(a)@ == cave_spec(old(a)@, *anim, buf_addr, buf_len, CONFIG_GRADIENT_FADE, IndexKind::Gradient),
{
    emit_effect_cave(a, anim, buf_addr, buf_len, CONFIG_GRADIENT_FADE, IndexKind::Gradient)
}

/// Center Pulse cave (config 3).
pub fn emit_center_pulse(a: &mut Asm, anim: &AnimationDesc, buf_addr: u32, buf_len: u32) -> (r: Result<(), AsmError>)
    requires
        asm_wf(old(a)@),
        cave_labels_free(old(a)@),
    ensures
        r is Ok,
        asm_wf(final(a)@),
        final(a)@ == cave_spec(old(a)@, *anim, buf_addr, buf_len, CONFIG_CENTER_PULSE, IndexKind::Center),
{
    emit_effect_cave(a, anim, buf_addr, buf_len, CONFIG_CENTER_PULSE, IndexKind::Center)
}

/// Diagonal Sweep cave (config 4).
pub fn emit_diagonal_sweep(a: &mut Asm, anim: &AnimationDesc, buf_addr: u32, buf_len: u32) -> (r: Result<(), AsmError>)
    requires
        asm_wf(old(a)@),
        cave_labels_free(old(a)@),
    ensures
        r is Ok,
        asm_wf(final(a)@),
        final(a)@ == cave_spec(old(a)@, *anim, buf_addr, buf_len, CONFIG_DIAGONAL_SWEEP, IndexKind::Diagonal),
{
    emit_effect_cave(a, anim, buf_addr, buf_len, CONFIG_DIAGONAL_SWEEP, IndexKind::Diagonal)
}

/// Effect ids of the descriptor's `animation.effects` object.
#[derive(Debug, Clone, Copy, PartialEq, Eq, Structural)]
pub struct EffectIds {
    pub gradient_fade: Option<u64>,
    pub center_pulse: Option<u64>,
    pub diagonal_sweep: Option<u64>,
}

/// What the patch builders read from a descriptor document: the
/// `animation` block, its effect ids, and the display buffer range.
#[derive(Debug, Clone, Copy, PartialEq, Eq, Structural)]
pub struct AnimationDoc {
    pub animation: AnimationDesc,
    pub effects: EffectIds,
    pub display_start: u32,
    pub display_end: u32,
}

/// A modification that writes `b` at `off` whatever was there.
pub open spec fn put(off: int, b: u8) -> PatchModification {
    PatchModification { offset: off as usize, original: None, patched: b }
}

/// The B.W detour at the hook site, byte by byte.
pub open spec fn hook_mods(hook: u32, cave: u32) -> Seq<PatchModification> {
    let hw = bw_pair_spec(hook, cave);
    seq![
        put(hook as int, (hw.0 & 0xFF) as u8),
        put(hook + 1, (hw.0 >> 8u16) as u8),
        put(hook + 2, (hw.1 & 0xFF) as u8),
        put(hook + 3, (hw.1 >> 8u16) as u8),
    ]
}

/// The cave body written at `start`.
pub open spec fn body_mods(start: u32, body: Seq<u8>) -> Seq<PatchModification> {
    Seq::new(body.len(), |i: int| put(start + i, body[i]))
}

/// An empty builder view based at `base`.
pub open spec fn fresh(base: u32) -> AsmView {
    AsmView { base, code: seq![], labels: seq![], fixups: seq![], pool: seq![] }
}

/// The outcome of building an effect patch, as a function of the cave
/// assembly: the error, or the modifications (hook detour, cave body, config
/// byte).
pub open spec fn effect_patch_ok(
    doc: AnimationDoc,
    effect: Option<u64>,
    config: u8,
    kind: IndexKind,
    r: Result<Patch, AnimError>,
) -> bool {
    let anim = doc.animation;
    match effect {
        None => r matches Err(AnimError::Descriptor(_)),
        Some(e) => {
            let v = cave_spec(
                fresh(anim.code_cave.start),
                anim,
                doc.display_start,
                (doc.display_end - doc.display_start) as u32,
                config,
                kind,
            );
            match assemble(v) {
                Err(ae) => r matches Err(AnimError::Asm(x)) && x@ == ae,
                Ok(body) => if body.len() > anim.code_cave.size {
                    r == Err::<Patch, AnimError>(
                        AnimError::CaveOverflow { body: body.len() as usize, cave: anim.code_cave.size },
                    )
                } else {
                    r matches Ok(p) && p.modifications@ == hook_mods(anim.hook_site, anim.code_cave.start)
                        + body_mods(anim.code_cave.start, body) + seq![
                        put(anim.config_byte_addr as int, e as u8),
                    ] && !p.applied && p.version@ == "1.0"@ && p.author@ == "cloudy-af"@
                },
            }
        },
    }
}

fn build_effect_patch(
    doc: &AnimationDoc,
    id: &str,
    name: &str,
    description: &str,
    effect: Option<u64>,
    missing: &str,
    config: u8,
    kind: IndexKind,
) -> (r: Result<Patch, AnimError>)
    requires
        doc.display_end >= doc.display_start,
        doc.animation.hook_site + 4 <= usize::MAX,
        doc.animation.code_cave.start + doc.animation.code_cave.size <= usize::MAX,
        doc.animation.config_byte_addr <= usize::MAX,
    ensures
        effect_patch_ok(*doc, effect, config, kind, r),
        r matches Ok(p) ==> p.id@ == id@ && p.name@ == name@ && p.description@ == description@,
{
    let anim = &doc.animation;
    let e = match effect {
        None => {
            return Err(AnimError::Descriptor(missing.to_owned()));
        },
        Some(e) => e,
    };
    let buf_addr = doc.display_start;
    let buf_len = doc.display_end - doc.display_start;
    let mut cave_asm = Asm::new(anim.code_cave.start);
    proof {
        assert(!has_label(cave_asm@, "loop"@) && !has_label(cave_asm@, "keep"@) && !has_label(cave_asm@, "resume"@));
    }
    let _ = emit_effect_cave(&mut cave_asm, anim, buf_addr, buf_len, config, kind);
    assert(cave_asm@ == cave_spec(fresh(anim.code_cave.start), *anim, buf_addr, buf_len, config, kind));
    assert(cave_asm@.code.len() < 1000 && cave_asm@.pool.len() == 11);
    let body = match cave_asm.finish() {
        Ok(b) => b,
        Err(ae) => {
            return Err(AnimError::Asm(ae));
        },
    };
    if body.len() > anim.code_cave.size {
        return Err(AnimError::CaveOverflow { body: body.len(), cave: anim.code_cave.size });
    }
    let mut modifications: Vec<PatchModification> = Vec::new();
    let hw = bw_pair(anim.hook_site, anim.code_cave.start);
    let hook = anim.hook_site as usize;
    modifications.push(PatchModification { offset: hook, original: None, patched: (hw[0] & 0xFF) as u8 });
    modifications.push(PatchModification { offset: hook + 1, original: None, patched: (hw[0] >> 8u16) as u8 });
    modifications.push(PatchModification { offset: hook + 2, original: None, patched: (hw[1] & 0xFF) as u8 });
    modifications.push(PatchModification { offset: hook + 3, original: None, patched: (hw[1] >> 8u16) as u8 });
    assert(modifications@ =~= hook_mods(anim.hook_site, anim.code_cave.start));
    let start = anim.code_cave.start as usize;
    let mut i: usize = 0;
    while i < body.len()
        invariant
            0 <= i <= body@.len(),
            body@.len() <= anim.code_cave.size,
            start == anim.code_cave.start,
            anim.code_cave.start + anim.code_cave.size <= usize::MAX,
            modifications@ == hook_mods(anim.hook_site, anim.code_cave.start) + body_mods(
                anim.code_cave.start,
                body@,
            ).subrange(0, i as int),
        decreases body@.len() - i,
    {
        modifications.push(PatchModification { offset: start + i, original: None, patched: body[i] });
        assert(body_mods(anim.code_cave.start, body@).subrange(0, i + 1) =~= body_mods(
            anim.code_cave.start,
            body@,
        ).subrange(0, i as int).push(put(start + i, body@[i as int])));
        i = i + 1;
    }
    assert(body_mods(anim.code_cave.start, body@).subrange(0, body@.len() as int) =~= body_mods(
        anim.code_cave.start,
        body@,
    ));
    let ghost before = modifications@;
    modifications.push(
        PatchModification { offset: anim.config_byte_addr as usize, original: None, patched: e as u8 },
    );
    assert(modifications@ =~= before + seq![put(anim.config_byte_addr as int, e as u8)]);
    proof {
        reveal_strlit("1.0");
        reveal_strlit("cloudy-af");
    }
    Ok(
        Patch {
            id: id.to_owned(),
            name: name.to_owned(),
            version: "1.0".to_owned(),
            author: "cloudy-af".to_owned(),
            description: description.to_owned(),
            modifications,
            applied: false,
        },
    )
}

/// Gradient Fade patch: B.W detour at the hook site, the cave body, and the config byte.
pub fn build_gradient_fade_patch(doc: &AnimationDoc) -> (r: Result<Patch, AnimError>)
    requires
        doc.display_end >= doc.display_start,
        doc.animation.hook_site + 4 <= usize::MAX,
        doc.animation.code_cave.start + doc.animation.code_cave.size <= usize::MAX,
        doc.animation.config_byte_addr <= usize::MAX,
    ensures
        effect_patch_ok(*doc, doc.effects.gradient_fade, CONFIG_GRADIENT_FADE, IndexKind::Gradient, r),
        r matches Ok(p) ==> p.id@ == "anim-gradient-fade"@ && p.name@ == "Gradient Fade (charge-screen animation)"@ && p.description@
            == "CRT-style gradient fade on screen timeout (config byte 2)"@,
{
    build_effect_patch(
        doc,
        "anim-gradient-fade",
        "Gradient Fade (charge-screen animation)",
        "CRT-style gradient fade on screen timeout (config byte 2)",
        doc.effects.gradient_fade,
        "animation.effects.gradient_fade missing",
        CONFIG_GRADIENT_FADE,
        IndexKind::Gradient,
    )
}

/// Center Pulse patch: B.W detour at the hook site, the cave body, and the config byte.
pub fn build_center_pulse_patch(doc: &AnimationDoc) -> (r: Result<Patch, AnimError>)
    requires
        doc.display_end >= doc.display_start,
        doc.animation.hook_site + 4 <= usize::MAX,
        doc.animation.code_cave.start + doc.animation.code_cave.size <= usize::MAX,
        doc.animation.config_byte_addr <= usize::MAX,
    ensures
        effect_patch_ok(*doc, doc.effects.center_pulse, CONFIG_CENTER_PULSE, IndexKind::Center, r),
        r matches Ok(p) ==> p.id@ == "anim-center-pulse"@ && p.name@ == "Center Pulse (charge-screen animation)"@ && p.description@
            == "Brightness rings pulse outward from screen centre on timeout (config byte 3)"@,
{
    build_effect_patch(
        doc,
        "anim-center-pulse",
        "Center Pulse (charge-screen animation)",
        "Brightness rings pulse outward from screen centre on timeout (config byte 3)",
        doc.effects.center_pulse,
        "animation.effects.center_pulse missing",
        CONFIG_CENTER_PULSE,
        IndexKind::Center,
    )
}

/// Diagonal Sweep patch: B.W detour at the hook site, the cave body, and the config byte.
pub fn build_diagonal_sweep_patch(doc: &AnimationDoc) -> (r: Result<Patch, AnimError>)
    requires
        doc.display_end >= doc.display_start,
        doc.animation.hook_site + 4 <= usize::MAX,
        doc.animation.code_cave.start + doc.animation.code_cave.size <= usize::MAX,
        doc.animation.config_byte_addr <= usize::MAX,
    ensures
        effect_patch_ok(*doc, doc.effects.diagonal_sweep, CONFIG_DIAGONAL_SWEEP, IndexKind::Diagonal, r),
        r matches Ok(p) ==> p.id@ == "anim-diagonal-sweep"@ && p.name@ == "Diagonal Sweep (charge-screen animation)"@ && p.description@
            == "Diagonal bands sweep the screen on timeout (config byte 4)"@,
{
    build_effect_patch(
        doc,
        "anim-diagonal-sweep",
        "Diagonal Sweep (charge-screen animation)",
        "Diagonal bands sweep the screen on timeout (config byte 4)",
        doc.effects.diagonal_sweep,
        "animation.effects.diagonal_sweep missing",
        CONFIG_DIAGONAL_SWEEP,
        IndexKind::Diagonal,
    )
}

} // verus!
