//! Firmware image tables, string tables, and resource packs.
//!
//! A header location stores two u32 pointers (`PtrFrom`/`PtrTo`) that delimit
//! a table of record pointers (images) or a run of NUL-terminated strings.
//! Records are rewritten in place, so the file layout never shifts.

use crate::firmware::error::FirmwareError;
use crate::firmware::text::{dec_text, hex_text, push_dec, push_hex_digits, push_text, string_from_chars};
use std::ops::Range;
use vstd::prelude::*;

pub mod respack;

verus! {

/// Block-1 glyphs: column-major, one byte per column of 8 rows, bit 0 = top.
pub const BLOCK1: u8 = 1;

/// Block-2 glyphs: row-major, MSB = leftmost pixel.
pub const BLOCK2: u8 = 2;

/// Little-endian u32 at `off`.
pub open spec fn u32le(b: Seq<u8>, off: int) -> u32 {
    (b[off] as u32) | ((b[off + 1] as u32) << 8u32) | ((b[off + 2] as u32) << 16u32) | ((b[off + 3]
        as u32) << 24u32)
}

/// Little-endian u16 at `off`.
pub open spec fn u16le(b: Seq<u8>, off: int) -> u16 {
    (b[off] as u16) | ((b[off + 1] as u16) << 8u16)
}

fn u32le_exec(b: &[u8], off: usize) -> (v: u32)
    requires
        off + 4 <= b@.len(),
    ensures
        v == u32le(b@, off as int),
{
    (b[off] as u32) | ((b[off + 1] as u32) << 8u32) | ((b[off + 2] as u32) << 16u32) | ((b[off + 3]
        as u32) << 24u32)
}

fn u16le_exec(b: &[u8], off: usize) -> (v: u16)
    requires
        off + 2 <= b@.len(),
    ensures
        v == u16le(b@, off as int),
{
    (b[off] as u16) | ((b[off + 1] as u16) << 8u16)
}

/// Pixel data bytes of a `width x height` glyph in `block`.
pub open spec fn record_len_spec(block: u8, width: nat, height: nat) -> nat {
    if block == BLOCK1 {
        width * ((height + 7) / 8)
    } else {
        ((width + 7) / 8) * height
    }
}

/// Number of pixel data bytes a `width x height` glyph occupies in `block`.
/// The arithmetic is that of `usize`: the inputs on which it would overflow
/// are left out.
pub fn record_len(block: u8, width: usize, height: usize) -> (n: usize)
    requires
        block == BLOCK1 ==> height + 7 <= usize::MAX,
        block != BLOCK1 ==> width + 7 <= usize::MAX,
        record_len_spec(block, width as nat, height as nat) <= usize::MAX,
    ensures
        n == record_len_spec(block, width as nat, height as nat),
{
    if block == BLOCK1 {
        let rows: usize = (height + 7) / 8;
        width * rows
    } else {
        let stride: usize = (width + 7) / 8;
        stride * height
    }
}

/// A glyph of byte-sized dimensions needs at most 8160 data bytes.
proof fn lemma_record_len_small(block: u8, width: nat, height: nat)
    requires
        width < 256,
        height < 256,
    ensures
        record_len_spec(block, width, height) <= 255 * 32,
{
    if block == BLOCK1 {
        assert(width * ((height + 7) / 8) <= 255 * 32) by (nonlinear_arith)
            requires
                width < 256,
                height < 256,
        ;
    } else {
        assert(((width + 7) / 8) * height <= 32 * 255) by (nonlinear_arith)
            requires
                width < 256,
                height < 256,
        ;
    }
}

/// One non-empty slot in an image table.
#[derive(Debug, Clone, Copy, PartialEq, Eq, Structural)]
pub struct ImageSlot {
    /// 1-based slot index; empty slots still consume an index.
    pub index: usize,
    /// File offset of the u32 pointer slot.
    pub reference_offset: usize,
    /// File offset of the `[width, height, ...pixels]` record.
    pub data_offset: usize,
    pub width: u8,
    pub height: u8,
    pub block: u8,
}

/// The slot at table position `pos` (index `index`), if its record is
/// readable: a non-zero pointer to a record that fits in the image.
pub open spec fn slot_at(b: Seq<u8>, pos: int, index: int, block: u8) -> Option<ImageSlot> {
    if pos + 4 <= b.len() {
        let data = u32le(b, pos) as int;
        if data != 0 && data + 2 <= b.len() {
            let w = b[data];
            let h = b[data + 1];
            if data + 2 + record_len_spec(block, w as nat, h as nat) <= b.len() {
                Some(
                    ImageSlot {
                        index: index as usize,
                        reference_offset: pos as usize,
                        data_offset: data as usize,
                        width: w,
                        height: h,
                        block,
                    },
                )
            } else {
                None
            }
        } else {
            None
        }
    } else {
        None
    }
}

/// Slots of the table positions `k..count` starting at `from`.
pub open spec fn table_slots(b: Seq<u8>, from: int, count: int, k: int, block: u8) -> Seq<ImageSlot>
    decreases count - k,
{
    if k >= count {
        seq![]
    } else {
        match slot_at(b, from + 4 * k, k + 1, block) {
            Some(s) => seq![s] + table_slots(b, from, count, k + 1, block),
            None => table_slots(b, from, count, k + 1, block),
        }
    }
}

/// The image table delimited by the pointers at `range.start`/`range.end`:
/// empty when a pointer is unreadable or 0, or the table has no room for a
/// slot.
pub open spec fn image_table(b: Seq<u8>, start: int, end: int, block: u8) -> Seq<ImageSlot> {
    if start + 4 > b.len() || end + 4 > b.len() {
        seq![]
    } else {
        let from = u32le(b, start) as int;
        let to = u32le(b, end) as int;
        if from == 0 || to == 0 || from > (if to >= 4 { to - 4 } else { 0 }) {
            seq![]
        } else {
            table_slots(b, from, (to - 4 - from) / 4 + 1, 0, block)
        }
    }
}

/// Parse an image table: every readable non-zero slot, with 1-based indices
/// counting empty slots too.
pub fn parse_image_table(bytes: &[u8], range: Range<usize>, block: u8) -> (r: Result<
    Vec<ImageSlot>,
    FirmwareError,
>)
    ensures
        r matches Ok(v) && v@ == image_table(bytes@, range.start as int, range.end as int, block),
{
    let len = bytes.len();
    if range.start as u128 + 4 > len as u128 || range.end as u128 + 4 > len as u128 {
        return Ok(Vec::new());
    }
    let table_from = u32le_exec(bytes, range.start) as usize;
    let table_to = u32le_exec(bytes, range.end) as usize;
    let to4 = if table_to >= 4 { table_to - 4 } else { 0 };
    if table_from == 0 || table_to == 0 || table_from > to4 {
        return Ok(Vec::new());
    }
    let ghost count = (table_to - 4 - table_from) / 4 + 1;
    let mut slots: Vec<ImageSlot> = Vec::new();
    let mut index: usize = 1;
    let mut pos: usize = table_from;
    while pos <= table_to - 4
        invariant
            len == bytes@.len(),
            table_from <= pos,
            (pos - table_from) % 4 == 0,
            index == (pos - table_from) / 4 + 1,
            table_to >= 4,
            table_from <= table_to - 4,
            count == (table_to - 4 - table_from) / 4 + 1,
            pos <= table_to,
            image_table(bytes@, range.start as int, range.end as int, block) == slots@ + table_slots(
                bytes@,
                table_from as int,
                count,
                index - 1,
                block,
            ),
        decreases table_to - pos,
    {
        let ghost k = index - 1;
        assert(pos == table_from + 4 * k);
        if pos as u128 + 4 <= len as u128 {
            let data = u32le_exec(bytes, pos) as usize;
            if data != 0 && data as u128 + 2 <= len as u128 {
                let width = bytes[data] as usize;
                let height = bytes[data + 1] as usize;
                proof {
                    lemma_record_len_small(block, width as nat, height as nat);
                }
                let rlen = record_len(block, width, height);
                if data as u128 + 2 + rlen as u128 <= len as u128 {
                    slots.push(
                        ImageSlot {
                            index,
                            reference_offset: pos,
                            data_offset: data,
                            width: width as u8,
                            height: height as u8,
                            block,
                        },
                    );
                }
            }
        }
        assert(image_table(bytes@, range.start as int, range.end as int, block) == slots@ + table_slots(
            bytes@,
            table_from as int,
            count,
            k + 1,
            block,
        ));
        index = index + 1;
        if pos as u128 + 4 > table_to as u128 - 4 {
            assert(k + 1 >= count);
            assert(slots@ + table_slots(bytes@, table_from as int, count, k + 1, block) =~= slots@);
            return Ok(slots);
        }
        pos = pos + 4;
    }
    Ok(slots)
}


/// Pixel (x, y) of a glyph whose data bytes are `data`.
pub open spec fn pixel_in(data: Seq<u8>, block: u8, w: nat, x: nat, y: nat) -> bool {
    if block == BLOCK1 {
        (data[((y / 8) * w + x) as int] >> ((y % 8) as u8)) & 1 == 1
    } else {
        (data[(y * ((w + 7) / 8) + x / 8) as int] >> ((7 - x % 8) as u8)) & 1 == 1
    }
}

/// Row-major pixels (`y * w + x`) of a glyph.
pub open spec fn decode_pixels(data: Seq<u8>, block: u8, w: nat, h: nat) -> Seq<bool> {
    Seq::new(w * h, |i: int| pixel_in(data, block, w, (i % (w as int)) as nat, (i / (w as int)) as nat))
}

/// Bit `b` (value `1 << b`) of data byte `k` when `pixels` are encoded.
pub open spec fn enc_bit(pixels: Seq<bool>, block: u8, w: nat, h: nat, k: nat, b: nat) -> bool {
    if block == BLOCK1 {
        let x = k % w;
        let y = (k / w) * 8 + b;
        y < h && pixels[(y * w + x) as int]
    } else {
        let stride = (w + 7) / 8;
        let x = (k % stride) * 8 + (7 - b);
        let y = k / stride;
        x < w && pixels[(y * w + x) as int]
    }
}

/// A byte from its eight bits, bit b worth `1 << b`.
pub open spec fn byte_of(b0: bool, b1: bool, b2: bool, b3: bool, b4: bool, b5: bool, b6: bool, b7: bool) -> u8 {
    (if b0 { 1u8 } else { 0u8 }) | (if b1 { 2u8 } else { 0u8 }) | (if b2 { 4u8 } else { 0u8 }) | (if b3 {
        8u8
    } else {
        0u8
    }) | (if b4 { 16u8 } else { 0u8 }) | (if b5 { 32u8 } else { 0u8 }) | (if b6 { 64u8 } else { 0u8 })
        | (if b7 { 128u8 } else { 0u8 })
}

/// Data byte `k` of the encoded glyph.
pub open spec fn enc_byte(pixels: Seq<bool>, block: u8, w: nat, h: nat, k: nat) -> u8 {
    byte_of(
        enc_bit(pixels, block, w, h, k, 0),
        enc_bit(pixels, block, w, h, k, 1),
        enc_bit(pixels, block, w, h, k, 2),
        enc_bit(pixels, block, w, h, k, 3),
        enc_bit(pixels, block, w, h, k, 4),
        enc_bit(pixels, block, w, h, k, 5),
        enc_bit(pixels, block, w, h, k, 6),
        enc_bit(pixels, block, w, h, k, 7),
    )
}

/// The data bytes of `pixels` encoded as a `w x h` glyph in `block`.
pub open spec fn encode_pixels(pixels: Seq<bool>, block: u8, w: nat, h: nat) -> Seq<u8> {
    Seq::new(record_len_spec(block, w, h), |k: int| enc_byte(pixels, block, w, h, k as nat))
}

/// Bit `b` of `byte_of(..)` is the b-th argument.
pub proof fn lemma_byte_of_bits(b0: bool, b1: bool, b2: bool, b3: bool, b4: bool, b5: bool, b6: bool, b7: bool)
    by (bit_vector)
    ensures
        (byte_of(b0, b1, b2, b3, b4, b5, b6, b7) >> 0u8) & 1 == 1 <==> b0,
        (byte_of(b0, b1, b2, b3, b4, b5, b6, b7) >> 1u8) & 1 == 1 <==> b1,
        (byte_of(b0, b1, b2, b3, b4, b5, b6, b7) >> 2u8) & 1 == 1 <==> b2,
        (byte_of(b0, b1, b2, b3, b4, b5, b6, b7) >> 3u8) & 1 == 1 <==> b3,
        (byte_of(b0, b1, b2, b3, b4, b5, b6, b7) >> 4u8) & 1 == 1 <==> b4,
        (byte_of(b0, b1, b2, b3, b4, b5, b6, b7) >> 5u8) & 1 == 1 <==> b5,
        (byte_of(b0, b1, b2, b3, b4, b5, b6, b7) >> 6u8) & 1 == 1 <==> b6,
        (byte_of(b0, b1, b2, b3, b4, b5, b6, b7) >> 7u8) & 1 == 1 <==> b7,
{
}


proof fn lemma_bit_case(p: Seq<bool>, block: u8, w: nat, h: nat, k: nat, b: nat)
    requires
        b < 8,
    ensures
        (enc_byte(p, block, w, h, k) >> (b as u8)) & 1 == 1 <==> enc_bit(p, block, w, h, k, b),
{
    lemma_byte_of_bits(
        enc_bit(p, block, w, h, k, 0),
        enc_bit(p, block, w, h, k, 1),
        enc_bit(p, block, w, h, k, 2),
        enc_bit(p, block, w, h, k, 3),
        enc_bit(p, block, w, h, k, 4),
        enc_bit(p, block, w, h, k, 5),
        enc_bit(p, block, w, h, k, 6),
        enc_bit(p, block, w, h, k, 7),
    );
    if b == 0 {
    } else if b == 1 {
    } else if b == 2 {
    } else if b == 3 {
    } else if b == 4 {
    } else if b == 5 {
    } else if b == 6 {
    } else {
    }
}

proof fn lemma_pixel_roundtrip(p: Seq<bool>, block: u8, w: nat, h: nat, i: int)
    requires
        w > 0,
        p.len() == w * h,
        0 <= i < w * h,
    ensures
        decode_pixels(encode_pixels(p, block, w, h), block, w, h)[i] == p[i],
{
    let x = (i % (w as int)) as nat;
    let y = (i / (w as int)) as nat;
    vstd::arithmetic::div_mod::lemma_fundamental_div_mod(i, w as int);
    assert(y < h) by (nonlinear_arith)
        requires
            i == (w as int) * (i / (w as int)) + i % (w as int),
            0 <= i % (w as int),
            i < w * h,
            y == i / (w as int),
            w > 0,
    ;
    let data = encode_pixels(p, block, w, h);
    if block == BLOCK1 {
        let q = (h + 7) / 8;
        let k = (y / 8) * w + x;
        assert(y / 8 < q);
        assert(k < w * q) by (nonlinear_arith)
            requires
                y / 8 < q,
                x < w,
                k == (y / 8) * w + x,
        ;
        vstd::arithmetic::div_mod::lemma_fundamental_div_mod_converse(k as int, w as int, (y / 8) as int, x as int);
        assert(enc_bit(p, block, w, h, k, y % 8) == p[i]) by {
            assert((k / w) * 8 + y % 8 == y);
            assert(y * w + x == i) by (nonlinear_arith)
                requires
                    i == (w as int) * (i / (w as int)) + i % (w as int),
                    y == i / (w as int),
                    x == i % (w as int),
            ;
        }
        lemma_bit_case(p, block, w, h, k, y % 8);
    } else {
        let stride = (w + 7) / 8;
        let k = y * stride + x / 8;
        assert(x / 8 < stride);
        assert(k < stride * h) by (nonlinear_arith)
            requires
                x / 8 < stride,
                y < h,
                k == y * stride + x / 8,
        ;
        vstd::arithmetic::div_mod::lemma_fundamental_div_mod_converse(k as int, stride as int, y as int, (x / 8) as int);
        assert(enc_bit(p, block, w, h, k, (7 - x % 8) as nat) == p[i]) by {
            assert((k % stride) * 8 + (7 - (7 - x % 8)) == x);
            assert(y * w + x == i) by (nonlinear_arith)
                requires
                    i == (w as int) * (i / (w as int)) + i % (w as int),
                    y == i / (w as int),
                    x == i % (w as int),
            ;
        }
        lemma_bit_case(p, block, w, h, k, (7 - x % 8) as nat);
    }
}

/// Decoding an encoded glyph gives back its pixels, in both packings.
pub proof fn lemma_encode_decode(p: Seq<bool>, block: u8, w: nat, h: nat)
    requires
        w > 0,
        p.len() == w * h,
    ensures
        decode_pixels(encode_pixels(p, block, w, h), block, w, h) == p,
{
    assert forall|i: int| 0 <= i < w * h implies #[trigger] decode_pixels(
        encode_pixels(p, block, w, h),
        block,
        w,
        h,
    )[i] == p[i] by {
        lemma_pixel_roundtrip(p, block, w, h, i);
    }
    assert(decode_pixels(encode_pixels(p, block, w, h), block, w, h) =~= p);
}


/// The byte holding pixel (x, y) lies inside the glyph's data.
proof fn lemma_pixel_byte_in_record(block: u8, w: nat, h: nat, x: nat, y: nat)
    requires
        x < w,
        y < h,
    ensures
        block == BLOCK1 ==> (y / 8) * w + x < record_len_spec(block, w, h),
        block != BLOCK1 ==> y * ((w + 7) / 8) + x / 8 < record_len_spec(block, w, h),
{
    let q = (h + 7) / 8;
    assert(y / 8 < q);
    assert((y / 8) * w + x < w * q) by (nonlinear_arith)
        requires
            y / 8 < q,
            x < w,
    ;
    let stride = (w + 7) / 8;
    assert(x / 8 < stride);
    assert(y * stride + x / 8 < stride * h) by (nonlinear_arith)
        requires
            x / 8 < stride,
            y < h,
    ;
}

/// Where a glyph record's pixel data starts and how long it is, when it fits.
pub open spec fn record_fits(len: nat, slot: ImageSlot) -> bool {
    slot.data_offset + 2 + record_len_spec(slot.block, slot.width as nat, slot.height as nat) <= len
}

/// Read an image slot's pixels, row-major (`y * width + x`).
pub fn read_image_pixels(bytes: &[u8], slot: &ImageSlot) -> (r: Result<Vec<bool>, FirmwareError>)
    ensures
        match r {
            Ok(v) => record_fits(bytes@.len(), *slot) && v@ == decode_pixels(
                bytes@.subrange(
                    slot.data_offset + 2,
                    slot.data_offset + 2 + record_len_spec(slot.block, slot.width as nat, slot.height as nat),
                ),
                slot.block,
                slot.width as nat,
                slot.height as nat,
            ),
            Err(e) => !record_fits(bytes@.len(), *slot) && (e matches FirmwareError::Other(m) && m@ == "image slot "@
                + dec_text(slot.index as nat) + " record out of bounds ("@ + dec_text((slot.data_offset + 2) as nat)
                + " + "@ + dec_text(record_len_spec(slot.block, slot.width as nat, slot.height as nat)) + " > "@
                + dec_text(bytes@.len()) + ")"@),
        },
{
    let width = slot.width as usize;
    let height = slot.height as usize;
    proof {
        lemma_record_len_small(slot.block, width as nat, height as nat);
    }
    let len = record_len(slot.block, width, height);
    if slot.data_offset as u128 + 2 + len as u128 > bytes.len() as u128 {
        let mut m: Vec<char> = Vec::new();
        push_text(&mut m, "image slot ");
        push_dec(&mut m, slot.index as u128);
        push_text(&mut m, " record out of bounds (");
        push_dec(&mut m, slot.data_offset as u128 + 2);
        push_text(&mut m, " + ");
        push_dec(&mut m, len as u128);
        push_text(&mut m, " > ");
        push_dec(&mut m, bytes.len() as u128);
        push_text(&mut m, ")");
        return Err(FirmwareError::Other(string_from_chars(m.as_slice())));
    }
    let ds = slot.data_offset + 2;
    let blen = bytes.len();
    let ghost data = bytes@.subrange(ds as int, ds + len);
    assert(width * height <= 255 * 255) by (nonlinear_arith)
        requires
            width <= 255,
            height <= 255,
    ;
    let n = width * height;
    let mut pixels: Vec<bool> = Vec::new();
    let mut i: usize = 0;
    while i < n
        invariant
            0 <= i <= n,
            n == width * height,
            width == slot.width,
            height == slot.height,
            len == record_len_spec(slot.block, width as nat, height as nat),
            ds + len <= blen,
            blen == bytes@.len(),
            data == bytes@.subrange(ds as int, ds + len),
            pixels@ == decode_pixels(data, slot.block, width as nat, height as nat).subrange(0, i as int),
        decreases n - i,
    {
        let x = i % width;
        let y = i / width;
        proof {
            vstd::arithmetic::div_mod::lemma_fundamental_div_mod(i as int, width as int);
            assert(y < height) by (nonlinear_arith)
                requires
                    i == width * (i / width) + i % width,
                    i < width * height,
                    y == i / width,
                    width > 0,
            ;
            lemma_pixel_byte_in_record(slot.block, width as nat, height as nat, x as nat, y as nat);
            assert((y / 8) * width <= (y / 8) * width + x);
            assert(y * ((width + 7) / 8) <= y * ((width + 7) / 8) + x / 8);
        }
        let bit = if slot.block == BLOCK1 {
            (bytes[ds + (y / 8) * width + x] >> ((y % 8) as u8)) & 1 == 1
        } else {
            (bytes[ds + y * ((width + 7) / 8) + x / 8] >> ((7 - x % 8) as u8)) & 1 == 1
        };
        pixels.push(bit);
        assert(pixels@ =~= decode_pixels(data, slot.block, width as nat, height as nat).subrange(0, i + 1));
        i = i + 1;
    }
    assert(pixels@ =~= decode_pixels(data, slot.block, width as nat, height as nat));
    Ok(pixels)
}


/// `b` with `rec` written at `d`.
pub open spec fn overwrite(b: Seq<u8>, d: int, rec: Seq<u8>) -> Seq<u8> {
    Seq::new(b.len(), |j: int| if d <= j < d + rec.len() { rec[j - d] } else { b[j] })
}

/// The first slot with this index.
pub open spec fn find_slot(slots: Seq<ImageSlot>, index: usize) -> Option<ImageSlot>
    decreases slots.len(),
{
    if slots.len() == 0 {
        None
    } else if slots[0].index == index {
        Some(slots[0])
    } else {
        find_slot(slots.drop_first(), index)
    }
}

/// The smallest record offset above `d`, if any.
pub open spec fn min_after(slots: Seq<ImageSlot>, d: usize) -> Option<usize>
    decreases slots.len(),
{
    if slots.len() == 0 {
        None
    } else {
        let rest = min_after(slots.drop_last(), d);
        let o = slots.last().data_offset;
        if o > d && (rest is None || o < rest->0) {
            Some(o)
        } else {
            rest
        }
    }
}

/// The record `[width, height, ...data]` for `pixels`.
pub open spec fn record_bytes(pixels: Seq<bool>, block: u8, w: nat, h: nat) -> Seq<u8> {
    seq![w as u8, h as u8] + encode_pixels(pixels, block, w, h)
}

/// Outcome of writing a `w x h` glyph over slot `index`: the slot is found,
/// the pixel count matches, and the record stops before the next record
/// (or the image end).
/// The message of a refused `write_image`: the slot is missing, the pixel
/// count is wrong, or the record would grow into the next one.
pub open spec fn write_image_error(bytes: Seq<u8>, slots: Seq<ImageSlot>, index: usize, w: nat, h: nat, n: nat) -> Seq<char> {
    match find_slot(slots, index) {
        None => "image slot "@ + dec_text(index as nat) + " not found"@,
        Some(slot) => if n != w * h {
            "image slot "@ + dec_text(index as nat) + ": expected "@ + dec_text(w * h) + " pixels for "@ + dec_text(w)
                + "x"@ + dec_text(h) + ", got "@ + dec_text(n)
        } else {
            let next: nat = match min_after(slots, slot.data_offset) {
                Some(o) => o as nat,
                None => bytes.len(),
            };
            "image slot "@ + dec_text(index as nat) + ": new "@ + dec_text(w) + "x"@ + dec_text(h) + " record needs "@
                + dec_text(2 + record_len_spec(slot.block, w, h)) + " bytes at 0x"@ + hex_text(slot.data_offset as nat)
                + " but that would clobber the next record at 0x"@ + hex_text(next)
                + " (refusing, unlike NFE's silent overwrite)"@
        },
    }
}

pub open spec fn write_image_ok(bytes: Seq<u8>, slots: Seq<ImageSlot>, index: usize, w: nat, h: nat, n: nat) -> bool {
    match find_slot(slots, index) {
        None => false,
        Some(slot) => n == w * h && slot.data_offset + 2 + record_len_spec(slot.block, w, h) <= match min_after(
            slots,
            slot.data_offset,
        ) {
            Some(o) => o as int,
            None => bytes.len() as int,
        },
    }
}

fn enc_bit_exec(pixels: &[bool], block: u8, w: usize, h: usize, k: usize, b: usize) -> (r: bool)
    requires
        pixels@.len() == w * h,
        b < 8,
        k < record_len_spec(block, w as nat, h as nat),
    ensures
        r == enc_bit(pixels@, block, w as nat, h as nat, k as nat, b as nat),
{
    let plen = pixels.len();
    let w2 = w as u128;
    let h2 = h as u128;
    let k2 = k as u128;
    let b2 = b as u128;
    assert(w2 * h2 <= 0xFFFF_FFFF_FFFF_FFFFu128 * 0xFFFF_FFFF_FFFF_FFFFu128) by (nonlinear_arith)
        requires
            w2 <= 0xFFFF_FFFF_FFFF_FFFFu128,
            h2 <= 0xFFFF_FFFF_FFFF_FFFFu128,
    ;
    if block == BLOCK1 {
        if w2 == 0 {
            assert(w * ((h + 7) / 8) == 0) by (nonlinear_arith)
                requires
                    w == 0,
            ;
            return false;
        }
        let x = k2 % w2;
        let y = (k2 / w2) * 8 + b2;
        if y >= h2 {
            return false;
        }
        assert(y * w2 + x < w2 * h2 && y * w2 <= w2 * h2) by (nonlinear_arith)
            requires
                y < h2,
                x < w2,
        ;
        pixels[(y * w2 + x) as usize]
    } else {
        let stride = (w2 + 7) / 8;
        if stride == 0 {
            assert(((w + 7) / 8) * h == 0) by (nonlinear_arith)
                requires
                    (w + 7) / 8 == 0,
            ;
            return false;
        }
        let x = (k2 % stride) * 8 + (7 - b2);
        let y = k2 / stride;
        if x >= w2 {
            return false;
        }
        assert(y < h2) by (nonlinear_arith)
            requires
                k2 < stride * h2,
                y == k2 / stride,
                stride > 0,
        ;
        assert(y * w2 + x < w2 * h2 && y * w2 <= w2 * h2) by (nonlinear_arith)
            requires
                y < h2,
                x < w2,
        ;
        pixels[(y * w2 + x) as usize]
    }
}


fn enc_byte_exec(pixels: &[bool], block: u8, w: usize, h: usize, k: usize) -> (r: u8)
    requires
        pixels@.len() == w * h,
        k < record_len_spec(block, w as nat, h as nat),
    ensures
        r == enc_byte(pixels@, block, w as nat, h as nat, k as nat),
{
    let b0 = enc_bit_exec(pixels, block, w, h, k, 0);
    let b1 = enc_bit_exec(pixels, block, w, h, k, 1);
    let b2 = enc_bit_exec(pixels, block, w, h, k, 2);
    let b3 = enc_bit_exec(pixels, block, w, h, k, 3);
    let b4 = enc_bit_exec(pixels, block, w, h, k, 4);
    let b5 = enc_bit_exec(pixels, block, w, h, k, 5);
    let b6 = enc_bit_exec(pixels, block, w, h, k, 6);
    let b7 = enc_bit_exec(pixels, block, w, h, k, 7);
    (if b0 { 1u8 } else { 0u8 }) | (if b1 { 2u8 } else { 0u8 }) | (if b2 { 4u8 } else { 0u8 }) | (if b3 {
        8u8
    } else {
        0u8
    }) | (if b4 { 16u8 } else { 0u8 }) | (if b5 { 32u8 } else { 0u8 }) | (if b6 { 64u8 } else { 0u8 })
        | (if b7 { 128u8 } else { 0u8 })
}

/// Write `pixels` (row-major, `width * height`) into the slot at `index`,
/// replacing its `[width, height, ...data]` record in place. A record that
/// would grow into the next record (or past the image end) is refused.
pub fn write_image(
    bytes: &mut Vec<u8>,
    slots: &[ImageSlot],
    index: usize,
    width: usize,
    height: usize,
    pixels: &[bool],
) -> (r: Result<(), FirmwareError>)
    requires
        write_image_ok(old(bytes)@, slots@, index, width as nat, height as nat, pixels@.len()) ==> find_slot(
            slots@,
            index,
        )->0.data_offset + 2 + record_len_spec(find_slot(slots@, index)->0.block, width as nat, height as nat)
            <= old(bytes)@.len(),
    ensures
        r is Ok <==> write_image_ok(old(bytes)@, slots@, index, width as nat, height as nat, pixels@.len()),
        r matches Err(e) ==> final(bytes)@ == old(bytes)@ && (e matches FirmwareError::Other(m) && m@ == write_image_error(
            old(bytes)@,
            slots@,
            index,
            width as nat,
            height as nat,
            pixels@.len(),
        )),
        r is Ok ==> final(bytes)@ == overwrite(
            old(bytes)@,
            find_slot(slots@, index)->0.data_offset as int,
            record_bytes(pixels@, find_slot(slots@, index)->0.block, width as nat, height as nat),
        ),
{
    let mut si: usize = 0;
    let ghost all = slots@;
    assert(all.subrange(0, all.len() as int) =~= all);
    while si < slots.len() && slots[si].index != index
        invariant
            0 <= si <= slots@.len(),
            all == slots@,
            find_slot(all, index) == find_slot(all.subrange(si as int, all.len() as int), index),
        decreases slots@.len() - si,
    {
        let ghost rest = all.subrange(si as int, all.len() as int);
        assert(rest.drop_first() =~= all.subrange(si + 1, all.len() as int));
        si = si + 1;
    }
    if si >= slots.len() {
        assert(all.subrange(si as int, all.len() as int) =~= Seq::<ImageSlot>::empty());
        let mut m: Vec<char> = Vec::new();
        push_text(&mut m, "image slot ");
        push_dec(&mut m, index as u128);
        push_text(&mut m, " not found");
        return Err(FirmwareError::Other(string_from_chars(m.as_slice())));
    }
    let slot = slots[si];
    assert(all.subrange(si as int, all.len() as int)[0] == slot);
    assert(find_slot(all, index) == Some(slot));
    assert(width as u128 * height as u128 <= 0xFFFF_FFFF_FFFF_FFFFu128 * 0xFFFF_FFFF_FFFF_FFFFu128) by (nonlinear_arith)
        requires
            width <= 0xFFFF_FFFF_FFFF_FFFFu128,
            height <= 0xFFFF_FFFF_FFFF_FFFFu128,
    ;
    if pixels.len() as u128 != width as u128 * height as u128 {
        let mut m: Vec<char> = Vec::new();
        push_text(&mut m, "image slot ");
        push_dec(&mut m, index as u128);
        push_text(&mut m, ": expected ");
        push_dec(&mut m, width as u128 * height as u128);
        push_text(&mut m, " pixels for ");
        push_dec(&mut m, width as u128);
        push_text(&mut m, "x");
        push_dec(&mut m, height as u128);
        push_text(&mut m, ", got ");
        push_dec(&mut m, pixels.len() as u128);
        return Err(FirmwareError::Other(string_from_chars(m.as_slice())));
    }
    let w2 = width as u128;
    let h2 = height as u128;
    assert(w2 * ((h2 + 7) / 8) <= 0xFFFF_FFFF_FFFF_FFFFu128 * 0x2000_0000_0000_0000u128 && ((w2 + 7) / 8) * h2
        <= 0x2000_0000_0000_0000u128 * 0xFFFF_FFFF_FFFF_FFFFu128) by (nonlinear_arith)
        requires
            w2 <= 0xFFFF_FFFF_FFFF_FFFFu128,
            h2 <= 0xFFFF_FFFF_FFFF_FFFFu128,
    ;
    let new_len: u128 = if slot.block == BLOCK1 { w2 * ((h2 + 7) / 8) } else { ((w2 + 7) / 8) * h2 };
    let blen = bytes.len();
    let mut next: Option<usize> = None;
    let mut t: usize = 0;
    while t < slots.len()
        invariant
            0 <= t <= slots@.len(),
            all == slots@,
            next == min_after(all.subrange(0, t as int), slot.data_offset),
        decreases slots@.len() - t,
    {
        assert(all.subrange(0, t + 1).drop_last() =~= all.subrange(0, t as int));
        let o = slots[t].data_offset;
        if o > slot.data_offset {
            match next {
                None => {
                    next = Some(o);
                },
                Some(m) => {
                    if o < m {
                        next = Some(o);
                    }
                },
            }
        }
        t = t + 1;
    }
    assert(all.subrange(0, all.len() as int) =~= all);
    let next_start: usize = match next {
        Some(m) => m,
        None => blen,
    };
    if slot.data_offset as u128 + 2 + new_len > next_start as u128 {
        let mut m: Vec<char> = Vec::new();
        push_text(&mut m, "image slot ");
        push_dec(&mut m, index as u128);
        push_text(&mut m, ": new ");
        push_dec(&mut m, width as u128);
        push_text(&mut m, "x");
        push_dec(&mut m, height as u128);
        push_text(&mut m, " record needs ");
        push_dec(&mut m, 2 + new_len);
        push_text(&mut m, " bytes at 0x");
        push_hex_digits(&mut m, slot.data_offset as u128);
        push_text(&mut m, " but that would clobber the next record at 0x");
        push_hex_digits(&mut m, next_start as u128);
        push_text(&mut m, " (refusing, unlike NFE's silent overwrite)");
        return Err(FirmwareError::Other(string_from_chars(m.as_slice())));
    }
    let d = slot.data_offset;
    let new_len = new_len as usize;
    assert(new_len == record_len_spec(slot.block, width as nat, height as nat));
    let ghost rec = record_bytes(pixels@, slot.block, width as nat, height as nat);
    let ghost b0 = bytes@;
    bytes.set(d, width as u8);
    bytes.set(d + 1, height as u8);
    let mut k: usize = 0;
    while k < new_len
        invariant
            0 <= k <= new_len,
            d + 2 + new_len <= blen,
            blen == b0.len(),
            bytes@.len() == b0.len(),
            new_len == record_len_spec(slot.block, width as nat, height as nat),
            rec == record_bytes(pixels@, slot.block, width as nat, height as nat),
            pixels@.len() == width * height,
            forall|j: int|
                0 <= j < b0.len() ==> #[trigger] bytes@[j] == if d <= j < d + 2 + k {
                    rec[j - d]
                } else {
                    b0[j]
                },
        decreases new_len - k,
    {
        let v = enc_byte_exec(pixels, slot.block, width, height, k);
        bytes.set(d + 2 + k, v);
        k = k + 1;
    }
    assert(bytes@ =~= overwrite(b0, d as int, rec));
    Ok(())
}

/// When every slot's record starts inside the image, a write that passes
/// the next-record guard stays inside the image.
pub proof fn lemma_write_image_in_bounds(bytes: Seq<u8>, slots: Seq<ImageSlot>, index: usize, w: nat, h: nat, n: nat)
    requires
        forall|i: int| 0 <= i < slots.len() ==> #[trigger] slots[i].data_offset <= bytes.len(),
    ensures
        write_image_ok(bytes, slots, index, w, h, n) ==> find_slot(slots, index)->0.data_offset + 2
            + record_len_spec(find_slot(slots, index)->0.block, w, h) <= bytes.len(),
{
    if let Some(slot) = find_slot(slots, index) {
        if min_after(slots, slot.data_offset) is Some {
            lemma_min_after_member(slots, slot.data_offset);
        }
    }
}

proof fn lemma_min_after_member(slots: Seq<ImageSlot>, d: usize)
    requires
        min_after(slots, d) is Some,
    ensures
        exists|i: int| 0 <= i < slots.len() && #[trigger] slots[i].data_offset == min_after(slots, d)->0,
    decreases slots.len(),
{
    let rest = min_after(slots.drop_last(), d);
    let o = slots.last().data_offset;
    if o > d && (rest is None || o < rest->0) {
        assert(slots[slots.len() - 1].data_offset == o);
    } else {
        lemma_min_after_member(slots.drop_last(), d);
        let i = choose|i: int| 0 <= i < slots.drop_last().len() && #[trigger] slots.drop_last()[i].data_offset == rest->0;
        assert(slots[i].data_offset == rest->0);
    }
}


/// Reading a glyph record back after writing it gives the written pixels.
pub proof fn lemma_read_after_write(b: Seq<u8>, d: int, pixels: Seq<bool>, block: u8, w: nat, h: nat)
    requires
        0 <= d,
        d + 2 + record_len_spec(block, w, h) <= b.len(),
        pixels.len() == w * h,
    ensures
        decode_pixels(
            overwrite(b, d, record_bytes(pixels, block, w, h)).subrange(d + 2, d + 2 + record_len_spec(block, w, h)),
            block,
            w,
            h,
        ) == pixels,
{
    let rec = record_bytes(pixels, block, w, h);
    let len = record_len_spec(block, w, h);
    assert(overwrite(b, d, rec).subrange(d + 2, d + 2 + len) =~= encode_pixels(pixels, block, w, h));
    if w > 0 {
        lemma_encode_decode(pixels, block, w, h);
    } else {
        assert(pixels.len() == 0) by (nonlinear_arith)
            requires
                pixels.len() == w * h,
                w == 0,
        ;
        assert(decode_pixels(encode_pixels(pixels, block, w, h), block, w, h) =~= pixels);
    }
}


/// A glyph that `write_image` accepted over slot `index` reads back with
/// `read_image_pixels` as the pixels that were written: the slot found for
/// `index`, with the new width and height, fits the new image, its record
/// header holds the new size, and its data decodes to `pixels`.
pub proof fn lemma_write_then_read(bytes: Seq<u8>, slots: Seq<ImageSlot>, index: usize, w: nat, h: nat, pixels: Seq<bool>)
    requires
        w < 256,
        h < 256,
        write_image_ok(bytes, slots, index, w, h, pixels.len()),
        find_slot(slots, index)->0.data_offset + 2 + record_len_spec(find_slot(slots, index)->0.block, w, h)
            <= bytes.len(),
    ensures
        ({
            let old_slot = find_slot(slots, index)->0;
            let slot = ImageSlot { width: w as u8, height: h as u8, ..old_slot };
            let after = overwrite(bytes, old_slot.data_offset as int, record_bytes(pixels, old_slot.block, w, h));
            &&& after.len() == bytes.len()
            &&& after[old_slot.data_offset as int] == w
            &&& after[old_slot.data_offset + 1] == h
            &&& record_fits(after.len(), slot)
            &&& decode_pixels(
                after.subrange(
                    slot.data_offset + 2,
                    slot.data_offset + 2 + record_len_spec(slot.block, slot.width as nat, slot.height as nat),
                ),
                slot.block,
                slot.width as nat,
                slot.height as nat,
            ) == pixels
        }),
{
    let old_slot = find_slot(slots, index)->0;
    lemma_read_after_write(bytes, old_slot.data_offset as int, pixels, old_slot.block, w, h);
}

/// Bit t (value `1 << t`) of packed byte k: pixel `8k + 7 - t`.
pub open spec fn pack_bit(p: Seq<bool>, k: int, t: int) -> bool {
    8 * k + 7 - t < p.len() && p[8 * k + 7 - t]
}

/// `p` packed 1bpp, MSB first; trailing bits of the last byte are 0.
pub open spec fn packed(p: Seq<bool>) -> Seq<u8> {
    Seq::new(
        ((p.len() + 7) / 8) as nat,
        |k: int|
            byte_of(
                pack_bit(p, k, 0),
                pack_bit(p, k, 1),
                pack_bit(p, k, 2),
                pack_bit(p, k, 3),
                pack_bit(p, k, 4),
                pack_bit(p, k, 5),
                pack_bit(p, k, 6),
                pack_bit(p, k, 7),
            ),
    )
}

/// The first `count` pixels of a 1bpp MSB-first payload.
pub open spec fn unpacked(b: Seq<u8>, count: nat) -> Seq<bool> {
    Seq::new(count, |i: int| (b[i / 8] >> ((7 - i % 8) as u8)) & 1 == 1)
}

fn pack_bit_exec(pixels: &[bool], k: usize, t: usize) -> (r: bool)
    requires
        t < 8,
        k < (pixels@.len() + 7) / 8,
    ensures
        r == pack_bit(pixels@, k as int, t as int),
{
    let i = 8 * (k as u128) + 7 - t as u128;
    i < pixels.len() as u128 && pixels[i as usize]
}

/// Pack row-major `pixels` into 1bpp, MSB first.
pub fn pack_1bpp(pixels: &[bool]) -> (out: Vec<u8>)
    ensures
        out@ == packed(pixels@),
{
    let n = (pixels.len() / 8) + (if pixels.len() % 8 == 0 { 0 } else { 1 });
    assert(n == (pixels@.len() + 7) / 8);
    let mut out: Vec<u8> = Vec::new();
    let mut k: usize = 0;
    while k < n
        invariant
            0 <= k <= n,
            n == (pixels@.len() + 7) / 8,
            out@ == packed(pixels@).subrange(0, k as int),
        decreases n - k,
    {
        let b0 = pack_bit_exec(pixels, k, 0);
        let b1 = pack_bit_exec(pixels, k, 1);
        let b2 = pack_bit_exec(pixels, k, 2);
        let b3 = pack_bit_exec(pixels, k, 3);
        let b4 = pack_bit_exec(pixels, k, 4);
        let b5 = pack_bit_exec(pixels, k, 5);
        let b6 = pack_bit_exec(pixels, k, 6);
        let b7 = pack_bit_exec(pixels, k, 7);
        out.push(
            (if b0 { 1u8 } else { 0u8 }) | (if b1 { 2u8 } else { 0u8 }) | (if b2 { 4u8 } else { 0u8 })
                | (if b3 { 8u8 } else { 0u8 }) | (if b4 { 16u8 } else { 0u8 }) | (if b5 {
                32u8
            } else {
                0u8
            }) | (if b6 { 64u8 } else { 0u8 }) | (if b7 { 128u8 } else { 0u8 }),
        );
        assert(out@ =~= packed(pixels@).subrange(0, k + 1));
        k = k + 1;
    }
    assert(out@ =~= packed(pixels@));
    out
}

/// Unpack `count` pixels from a 1bpp MSB-first payload; an error when the
/// payload is too short.
pub fn unpack_1bpp(bytes: &[u8], count: usize) -> (r: Result<Vec<bool>, FirmwareError>)
    ensures
        count <= bytes@.len() * 8 ==> (r matches Ok(v) && v@ == unpacked(bytes@, count as nat)),
        count > bytes@.len() * 8 ==> (r matches Err(e) && (e matches FirmwareError::Other(m) && m@ == "need "@ + dec_text(
            count as nat,
        ) + " bits but the payload has only "@ + dec_text(bytes@.len()) + " bytes"@)),
{
    if count as u128 > bytes.len() as u128 * 8 {
        let mut m: Vec<char> = Vec::new();
        push_text(&mut m, "need ");
        push_dec(&mut m, count as u128);
        push_text(&mut m, " bits but the payload has only ");
        push_dec(&mut m, bytes.len() as u128);
        push_text(&mut m, " bytes");
        return Err(FirmwareError::Other(string_from_chars(m.as_slice())));
    }
    let mut out: Vec<bool> = Vec::new();
    let mut i: usize = 0;
    while i < count
        invariant
            0 <= i <= count,
            count <= bytes@.len() * 8,
            out@ == unpacked(bytes@, count as nat).subrange(0, i as int),
        decreases count - i,
    {
        out.push((bytes[i / 8] >> ((7 - i % 8) as u8)) & 1 == 1);
        assert(out@ =~= unpacked(bytes@, count as nat).subrange(0, i + 1));
        i = i + 1;
    }
    assert(out@ =~= unpacked(bytes@, count as nat));
    Ok(out)
}

/// Unpacking a packed image gives back its pixels.
pub proof fn lemma_unpack_pack(p: Seq<bool>)
    ensures
        unpacked(packed(p), p.len()) == p,
{
    assert forall|i: int| 0 <= i < p.len() implies #[trigger] unpacked(packed(p), p.len())[i] == p[i] by {
        let k = i / 8;
        let t = 7 - i % 8;
        assert(8 * k + 7 - t == i);
        lemma_byte_of_bits(
            pack_bit(p, k, 0),
            pack_bit(p, k, 1),
            pack_bit(p, k, 2),
            pack_bit(p, k, 3),
            pack_bit(p, k, 4),
            pack_bit(p, k, 5),
            pack_bit(p, k, 6),
            pack_bit(p, k, 7),
        );
        assert(k < (p.len() + 7) / 8);
    }
    assert(unpacked(packed(p), p.len()) =~= p);
}


/// One string in a string table.
#[derive(Debug, Clone, Copy, PartialEq, Eq, Structural)]
pub struct FwString {
    /// 1-based sequential index.
    pub index: usize,
    pub data_offset: usize,
    /// Bytes including the terminator (and absorbed trailing padding).
    pub byte_length: usize,
    /// Glyphs are little-endian u16 rather than bytes.
    pub two_byte: bool,
}

/// End (one past the terminator) of the single-byte string at `p`: a NUL
/// followed by a non-NUL ends it; the last one runs to `to`.
pub open spec fn end1(b: Seq<u8>, p: int, to: int) -> int
    decreases to + 1 - p,
{
    if p > to {
        p
    } else if b[p] == 0 && p + 1 <= to && b[p + 1] != 0 {
        p + 1
    } else {
        end1(b, p + 1, to)
    }
}

/// End of the two-byte string at `p`: a NUL unit followed by a non-NUL
/// unit ends it; the last one runs past `to`.
pub open spec fn end2(b: Seq<u8>, p: int, to: int) -> int
    decreases to + 1 - p,
{
    if p >= to {
        p
    } else if u16le(b, p) == 0 && !(p + 3 > to) && u16le(b, p + 2) != 0 {
        p + 2
    } else {
        end2(b, p + 2, to)
    }
}

/// The strings from `p` on, numbered from `index`.
pub open spec fn scan_strings(b: Seq<u8>, p: int, to: int, two: bool, index: int) -> Seq<FwString>
    decreases to + 1 - p,
{
    if p > to {
        seq![]
    } else {
        let e = if two { end2(b, p, to) } else { end1(b, p, to) };
        if e <= p || e > to + 1 {
            seq![]
        } else {
            seq![FwString { index: index as usize, data_offset: p as usize, byte_length: (e - p) as usize, two_byte: two }]
                + scan_strings(b, e, to, two, index + 1)
        }
    }
}

/// Pointer bounds of the string table: `(from, to)` with `to` excluding the
/// u32 at the PtrTo slot; None when the table is absent.
pub open spec fn string_bounds(b: Seq<u8>, start: int, end: int) -> Option<(int, int)> {
    if start + 4 > b.len() || end + 4 > b.len() {
        None
    } else {
        let from = u32le(b, start) as int;
        let raw_to = u32le(b, end) as int;
        let to = if raw_to >= 4 { raw_to - 4 } else { 0 };
        if from == 0 || to == 0 || from > to {
            None
        } else {
            Some((from, to))
        }
    }
}

/// The table ends inside the image, and a two-byte table holds whole
/// units (`from..=to` spans an even number of bytes).
pub open spec fn string_table_ok(b: Seq<u8>, start: int, end: int, char_width: u8) -> bool {
    match string_bounds(b, start, end) {
        None => true,
        Some((from, to)) => to < b.len() && (char_width == 2 ==> (to - from) % 2 == 1),
    }
}

/// The strings of the table.
pub open spec fn string_table(b: Seq<u8>, start: int, end: int, char_width: u8) -> Seq<FwString> {
    match string_bounds(b, start, end) {
        None => seq![],
        Some((from, to)) => scan_strings(b, from, to, char_width == 2, 1),
    }
}

proof fn lemma_end1_progress(b: Seq<u8>, p: int, to: int)
    requires
        p <= to,
    ensures
        p < end1(b, p, to) <= to + 1,
    decreases to + 1 - p,
{
    if !(b[p] == 0 && p + 1 <= to && b[p + 1] != 0) {
        if p + 1 <= to {
            lemma_end1_progress(b, p + 1, to);
        } else {
            assert(end1(b, p + 1, to) == p + 1);
        }
    }
}

proof fn lemma_end2_progress(b: Seq<u8>, p: int, to: int)
    requires
        p <= to,
        (to - p) % 2 == 1,
    ensures
        p < end2(b, p, to) <= to + 1,
        (end2(b, p, to) - p) % 2 == 0,
    decreases to + 1 - p,
{
    if !(u16le(b, p) == 0 && !(p + 3 > to) && u16le(b, p + 2) != 0) {
        if p + 2 <= to {
            lemma_end2_progress(b, p + 2, to);
        } else {
            assert(end2(b, p + 2, to) == p + 2);
        }
    }
}

/// The strings of a table tile it: numbered on from `index`, the first at
/// `p`, each at least one byte long and starting where the one before it
/// ends, the last ending one past `to`.
pub proof fn lemma_strings_tile(b: Seq<u8>, p: int, to: int, two: bool, index: int)
    requires
        0 <= p <= to + 1,
        two && p <= to ==> (to - p) % 2 == 1,
        to + 1 <= usize::MAX,
        1 <= index,
        index + (to + 1 - p) <= usize::MAX,
    ensures
        ({
            let v = scan_strings(b, p, to, two, index);
            &&& (p > to <==> v.len() == 0)
            &&& v.len() <= to + 1 - p
            &&& (p <= to ==> v[0].data_offset == p && v.last().data_offset + v.last().byte_length == to + 1)
            &&& forall|k: int|
                0 <= k < v.len() ==> (#[trigger] v[k]).index == index + k && v[k].byte_length >= 1 && v[k].two_byte
                    == two
            &&& forall|k: int| 0 <= k < v.len() - 1 ==> #[trigger] v[k + 1].data_offset == v[k].data_offset + v[k].byte_length
        }),
    decreases to + 1 - p,
{
    if p <= to {
        let e = if two { end2(b, p, to) } else { end1(b, p, to) };
        if two {
            lemma_end2_progress(b, p, to);
        } else {
            lemma_end1_progress(b, p, to);
        }
        lemma_strings_tile(b, e, to, two, index + 1);
        let head = FwString { index: index as usize, data_offset: p as usize, byte_length: (e - p) as usize, two_byte: two };
        let rest = scan_strings(b, e, to, two, index + 1);
        let v = scan_strings(b, p, to, two, index);
        assert(v == seq![head] + rest);
        assert forall|k: int| 0 <= k < v.len() implies (#[trigger] v[k]).index == index + k && v[k].byte_length >= 1
            && v[k].two_byte == two by {
            if k > 0 {
                assert(v[k] == rest[k - 1]);
            }
        }
        assert forall|k: int| 0 <= k < v.len() - 1 implies #[trigger] v[k + 1].data_offset == v[k].data_offset
            + v[k].byte_length by {
            assert(v[k + 1] == rest[k]);
            if k > 0 {
                assert(v[k] == rest[k - 1]);
                let j = k - 1;
                assert(rest[j + 1].data_offset == rest[j].data_offset + rest[j].byte_length);
            } else {
                assert(e <= to);
                assert(rest[0].data_offset == e);
                assert(v[0] == head);
            }
        }
    }
}

fn end1_exec(bytes: &[u8], p: usize, to: usize) -> (e: usize)
    requires
        p <= to,
        to < bytes@.len(),
    ensures
        e == end1(bytes@, p as int, to as int),
{
    let mut q = p;
    while q <= to
        invariant
            p <= q <= to + 1,
            to < bytes@.len(),
            end1(bytes@, p as int, to as int) == end1(bytes@, q as int, to as int),
        decreases to + 1 - q,
    {
        if bytes[q] == 0 && q + 1 <= to && bytes[q + 1] != 0 {
            return q + 1;
        }
        q = q + 1;
    }
    q
}

fn end2_exec(bytes: &[u8], p: usize, to: usize) -> (e: usize)
    requires
        p <= to,
        to < bytes@.len(),
    ensures
        e == end2(bytes@, p as int, to as int),
{
    let mut q = p;
    let blen = bytes.len();
    while q < to
        invariant
            p <= q <= to + 1,
            to < blen,
            blen == bytes@.len(),
            end2(bytes@, p as int, to as int) == end2(bytes@, q as int, to as int),
        decreases to + 1 - q,
    {
        let c = u16le_exec(bytes, q);
        let at_end = to - q < 3;
        if c == 0 && !at_end && u16le_exec(bytes, q + 2) != 0 {
            return q + 2;
        }
        q = q + 2;
    }
    q
}

/// Parse a string table: contiguous NUL-terminated entries; the last one
/// absorbs trailing zero padding. A two-byte table must span whole units:
/// on one with an odd last byte the walk would never end.
pub fn parse_string_table(bytes: &[u8], range: Range<usize>, char_width: u8) -> (r: Result<
    Vec<FwString>,
    FirmwareError,
>)
    requires
        string_table_ok(bytes@, range.start as int, range.end as int, char_width),
    ensures
        r matches Ok(v) && v@ == string_table(bytes@, range.start as int, range.end as int, char_width),
{
    let len = bytes.len();
    if range.start as u128 + 4 > len as u128 || range.end as u128 + 4 > len as u128 {
        return Ok(Vec::new());
    }
    let table_from = u32le_exec(bytes, range.start) as usize;
    let raw_to = u32le_exec(bytes, range.end);
    let table_to = (if raw_to >= 4 { raw_to - 4 } else { 0 }) as usize;
    if table_from == 0 || table_to == 0 || table_from > table_to {
        return Ok(Vec::new());
    }
    let two_byte = char_width == 2;
    let mut strings: Vec<FwString> = Vec::new();
    let mut index: usize = 1;
    let mut p = table_from;
    while p <= table_to
        invariant
            table_from <= p <= table_to + 1,
            table_from >= 1,
            table_to < len,
            len == bytes@.len(),
            index >= 1,
            index <= p - table_from + 1,
            two_byte == (char_width == 2),
            two_byte && p <= table_to ==> (table_to - p) % 2 == 1,
            string_table(bytes@, range.start as int, range.end as int, char_width) == strings@
                + scan_strings(bytes@, p as int, table_to as int, two_byte, index as int),
        decreases table_to + 1 - p,
    {
        let start = p;
        let e = if two_byte {
            proof {
                lemma_end2_progress(bytes@, p as int, table_to as int);
            }
            end2_exec(bytes, p, table_to)
        } else {
            proof {
                lemma_end1_progress(bytes@, p as int, table_to as int);
            }
            end1_exec(bytes, p, table_to)
        };
        assert(index + 1 <= e - table_from + 1);
        strings.push(FwString { index, data_offset: start, byte_length: e - start, two_byte });
        assert(strings@ + scan_strings(bytes@, e as int, table_to as int, two_byte, index + 1) =~= strings@.drop_last()
            + scan_strings(bytes@, p as int, table_to as int, two_byte, index as int));
        index = index + 1;
        p = e;
    }
    assert(strings@ + scan_strings(bytes@, p as int, table_to as int, two_byte, index as int) =~= strings@);
    Ok(strings)
}


/// Bytes per glyph.
pub open spec fn unit_of(s: FwString) -> nat {
    if s.two_byte {
        2
    } else {
        1
    }
}

/// Glyph slots of the string, terminator included.
pub open spec fn cap_of(s: FwString) -> nat {
    (s.byte_length as nat) / unit_of(s)
}

/// Glyph `i` of the string.
pub open spec fn glyph_at(b: Seq<u8>, s: FwString, i: int) -> u16 {
    if s.two_byte {
        u16le(b, s.data_offset + 2 * i)
    } else {
        b[s.data_offset + i] as u16
    }
}

/// Glyphs `i..count` up to (excluding) the first zero.
pub open spec fn glyphs_from(b: Seq<u8>, s: FwString, i: int, count: int) -> Seq<u16>
    decreases count - i,
{
    if i >= count {
        seq![]
    } else if glyph_at(b, s, i) == 0 {
        seq![]
    } else {
        seq![glyph_at(b, s, i)] + glyphs_from(b, s, i + 1, count)
    }
}

/// The glyphs of a string, up to its terminator.
pub open spec fn string_glyphs(b: Seq<u8>, s: FwString) -> Seq<u16> {
    glyphs_from(b, s, 0, cap_of(s) as int)
}

/// The string's glyph capacity lies inside the image.
pub open spec fn string_in(len: nat, s: FwString) -> bool {
    s.data_offset + cap_of(s) * unit_of(s) <= len
}

/// Read a string's glyph ids, stopping before the NUL terminator.
pub fn read_string_glyphs(bytes: &[u8], s: &FwString) -> (out: Vec<u16>)
    requires
        string_in(bytes@.len(), *s),
    ensures
        out@ == string_glyphs(bytes@, *s),
{
    let unit: usize = if s.two_byte { 2 } else { 1 };
    let count = s.byte_length / unit;
    let blen = bytes.len();
    let mut out: Vec<u16> = Vec::new();
    let mut i: usize = 0;
    while i < count
        invariant
            0 <= i <= count,
            unit == unit_of(*s),
            count == s.byte_length / unit,
            s.data_offset + count * unit <= blen,
            blen == bytes@.len(),
            string_glyphs(bytes@, *s) == out@ + glyphs_from(bytes@, *s, i as int, count as int),
        decreases count - i,
    {
        assert(s.data_offset + i * unit + unit <= s.data_offset + count * unit) by (nonlinear_arith)
            requires
                i < count,
                unit >= 1,
        ;
        let pos = s.data_offset + i * unit;
        let g = if s.two_byte {
            u16le_exec(bytes, pos)
        } else {
            bytes[pos] as u16
        };
        if g == 0 {
            assert(out@ + glyphs_from(bytes@, *s, i as int, count as int) =~= out@);
            return out;
        }
        let ghost before = out@;
        out.push(g);
        assert(out@ + glyphs_from(bytes@, *s, i + 1, count as int) =~= before + glyphs_from(
            bytes@,
            *s,
            i as int,
            count as int,
        ));
        i = i + 1;
    }
    assert(out@ + glyphs_from(bytes@, *s, i as int, count as int) =~= out@);
    out
}

/// Byte `j` of the glyph area after writing `glyphs` and zero padding.
pub open spec fn glyph_area_byte(glyphs: Seq<u16>, two: bool, j: int) -> u8 {
    if two {
        let g: u16 = if j / 2 < glyphs.len() { glyphs[j / 2] } else { 0 };
        if j % 2 == 0 {
            (g & 0xff) as u8
        } else {
            (g >> 8u16) as u8
        }
    } else {
        let g: u16 = if j < glyphs.len() { glyphs[j] } else { 0 };
        (g & 0xff) as u8
    }
}

/// The glyph area of a string after writing `glyphs`, zero-padded.
pub open spec fn glyph_area(glyphs: Seq<u16>, s: FwString) -> Seq<u8> {
    Seq::new(
        cap_of(s) * unit_of(s),
        |j: int| glyph_area_byte(glyphs, s.two_byte, j),
    )
}

/// Write a string's glyphs in place, zero-padded to its fixed length; the
/// glyphs must leave room for the terminator.
pub fn write_string_glyphs(bytes: &mut Vec<u8>, s: &FwString, glyphs: &[u16]) -> (r: Result<(), FirmwareError>)
    requires
        string_in(old(bytes)@.len(), *s),
    ensures
        r is Ok <==> glyphs@.len() <= (if cap_of(*s) >= 1 { cap_of(*s) - 1 } else { 0 }),
        r matches Err(e) ==> final(bytes)@ == old(bytes)@ && (e matches FirmwareError::Other(m) && m@ == "string "@
            + dec_text(s.index as nat) + ": "@ + dec_text(glyphs@.len()) + " glyphs do not fit in a "@ + dec_text(
            s.byte_length as nat,
        ) + "-byte string (max "@ + dec_text((if cap_of(*s) >= 1 { cap_of(*s) - 1 } else { 0 }) as nat) + ")"@),
        r is Ok ==> final(bytes)@ == overwrite(old(bytes)@, s.data_offset as int, glyph_area(glyphs@, *s)),
{
    let unit: usize = if s.two_byte { 2 } else { 1 };
    let max_chars = s.byte_length / unit;
    let cap = if max_chars >= 1 { max_chars - 1 } else { 0 };
    if glyphs.len() > cap {
        let mut m: Vec<char> = Vec::new();
        push_text(&mut m, "string ");
        push_dec(&mut m, s.index as u128);
        push_text(&mut m, ": ");
        push_dec(&mut m, glyphs.len() as u128);
        push_text(&mut m, " glyphs do not fit in a ");
        push_dec(&mut m, s.byte_length as u128);
        push_text(&mut m, "-byte string (max ");
        push_dec(&mut m, cap as u128);
        push_text(&mut m, ")");
        return Err(FirmwareError::Other(string_from_chars(m.as_slice())));
    }
    let ghost b0 = bytes@;
    let ghost area = glyph_area(glyphs@, *s);
    let d = s.data_offset;
    let blen = bytes.len();
    let mut i: usize = 0;
    while i < max_chars
        invariant
            0 <= i <= max_chars,
            unit == unit_of(*s),
            max_chars == s.byte_length / unit,
            d == s.data_offset,
            d + max_chars * unit <= blen,
            blen == b0.len(),
            bytes@.len() == b0.len(),
            glyphs@.len() <= max_chars,
            area == glyph_area(glyphs@, *s),
            forall|j: int|
                0 <= j < b0.len() ==> #[trigger] bytes@[j] == if d <= j < d + i * unit {
                    area[j - d]
                } else {
                    b0[j]
                },
        decreases max_chars - i,
    {
        assert(d + i * unit + unit <= d + max_chars * unit) by (nonlinear_arith)
            requires
                i < max_chars,
                unit >= 1,
        ;
        let g: u16 = if i < glyphs.len() { glyphs[i] } else { 0 };
        let pos = d + i * unit;
        if s.two_byte {
            bytes.set(pos, (g & 0xff) as u8);
            bytes.set(pos + 1, (g >> 8u16) as u8);
            assert((2 * i) / 2 == i && (2 * i + 1) / 2 == i && (2 * i) % 2 == 0 && (2 * i + 1) % 2 == 1);
        } else {
            bytes.set(pos, (g & 0xff) as u8);
        }
        assert forall|j: int| 0 <= j < b0.len() implies #[trigger] bytes@[j] == if d <= j < d + (i + 1) * unit {
            area[j - d]
        } else {
            b0[j]
        } by {
            assert((i + 1) * unit == i * unit + unit) by (nonlinear_arith);
        }
        i = i + 1;
    }
    assert(bytes@ =~= overwrite(b0, d as int, area));
    Ok(())
}


proof fn lemma_glyph_readback(b: Seq<u8>, s: FwString, g: Seq<u16>, i: int)
    requires
        0 <= i < cap_of(s),
        s.data_offset + cap_of(s) * unit_of(s) <= b.len(),
        !s.two_byte ==> forall|k: int| 0 <= k < g.len() ==> #[trigger] g[k] < 256,
    ensures
        glyph_at(overwrite(b, s.data_offset as int, glyph_area(g, s)), s, i) == if i < g.len() {
            g[i]
        } else {
            0u16
        },
{
    let nb = overwrite(b, s.data_offset as int, glyph_area(g, s));
    let d = s.data_offset as int;
    assert(i * unit_of(s) + unit_of(s) <= cap_of(s) * unit_of(s)) by (nonlinear_arith)
        requires
            i < cap_of(s),
            unit_of(s) >= 1,
    ;
    let v: u16 = if i < g.len() { g[i] } else { 0u16 };
    if s.two_byte {
        assert(nb[d + 2 * i] == glyph_area_byte(g, true, 2 * i));
        assert(nb[d + 2 * i + 1] == glyph_area_byte(g, true, 2 * i + 1));
        assert((2 * i) / 2 == i && (2 * i + 1) / 2 == i && (2 * i) % 2 == 0 && (2 * i + 1) % 2 == 1);
        assert((((v & 0xff) as u8) as u16) | ((((v >> 8u16) as u8) as u16) << 8u16) == v) by (bit_vector);
    } else {
        assert(nb[d + i] == glyph_area_byte(g, false, i));
        if i < g.len() {
            assert(g[i] < 256);
        }
        assert(v < 256 ==> (((v & 0xff) as u8) as u16) == v) by (bit_vector);
    }
}

proof fn lemma_glyphs_from_written(b: Seq<u8>, s: FwString, g: Seq<u16>, i: int)
    requires
        0 <= i <= g.len(),
        g.len() < cap_of(s),
        s.data_offset + cap_of(s) * unit_of(s) <= b.len(),
        forall|k: int| 0 <= k < g.len() ==> #[trigger] g[k] != 0,
        !s.two_byte ==> forall|k: int| 0 <= k < g.len() ==> #[trigger] g[k] < 256,
    ensures
        glyphs_from(overwrite(b, s.data_offset as int, glyph_area(g, s)), s, i, cap_of(s) as int) == g.subrange(
            i,
            g.len() as int,
        ),
    decreases g.len() - i,
{
    let nb = overwrite(b, s.data_offset as int, glyph_area(g, s));
    lemma_glyph_readback(b, s, g, i);
    if i < g.len() {
        lemma_glyphs_from_written(b, s, g, i + 1);
        assert(g.subrange(i, g.len() as int) =~= seq![g[i]] + g.subrange(i + 1, g.len() as int));
    } else {
        assert(g.subrange(i, g.len() as int) =~= Seq::<u16>::empty());
    }
}

/// Reading a string after writing glyphs (none zero, each a byte in
/// single-byte strings) gives them back.
pub proof fn lemma_read_after_write_string(b: Seq<u8>, s: FwString, g: Seq<u16>)
    requires
        g.len() < cap_of(s),
        string_in(b.len(), s),
        forall|k: int| 0 <= k < g.len() ==> #[trigger] g[k] != 0,
        !s.two_byte ==> forall|k: int| 0 <= k < g.len() ==> #[trigger] g[k] < 256,
    ensures
        string_glyphs(overwrite(b, s.data_offset as int, glyph_area(g, s)), s) == g,
{
    lemma_glyphs_from_written(b, s, g, 0);
    assert(g.subrange(0, g.len() as int) =~= g);
}

} // verus!
