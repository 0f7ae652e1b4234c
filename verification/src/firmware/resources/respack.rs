//! Resource packs (`.respack`): an XML manifest of logo glyphs to paste onto
//! the firmware's image tables.

use crate::firmware::definition::FirmwareDefinition;
use crate::firmware::error::FirmwareError;
use crate::firmware::resources::{
    find_slot, image_table, overwrite, parse_image_table, record_bytes, table_slots, slot_at,
    lemma_write_image_in_bounds, write_image, write_image_ok, ImageSlot, BLOCK1, BLOCK2,
};
use crate::firmware::text::{
    chars_of, find_char, find_char_exec, lemma_find_char_bounds, parse_unsigned,
    parse_unsigned_exec, string_from_chars, trim, trimmed,
};
use crate::firmware::xml::{
    attr_views, bytes_eq, document_events, find_last, last_value, views, xml_events, xml_tokens, XmlAttr,
    XmlAttrView, XmlEvent, XmlEventView,
};
use vstd::prelude::*;
use vstd::string::*;

verus! {

/// One glyph in a resource pack, pixels row-major (`y * width + x`).
#[derive(Debug)]
pub struct ResourcePackImage {
    /// 1-based image table slot index to target.
    pub index: u32,
    pub width: u8,
    pub height: u8,
    pub pixels: Vec<bool>,
}

/// A parsed `.respack` manifest.
#[derive(Debug)]
pub struct ResourcePack {
    pub definition: String,
    pub name: String,
    pub version: String,
    pub author: String,
    pub description: String,
    pub images: Vec<ResourcePackImage>,
}

pub struct PackImageView {
    pub index: u32,
    pub width: u8,
    pub height: u8,
    pub pixels: Seq<bool>,
}

impl View for ResourcePackImage {
    type V = PackImageView;

    open spec fn view(&self) -> PackImageView {
        PackImageView { index: self.index, width: self.width, height: self.height, pixels: self.pixels@ }
    }
}

/// The views of a list of pack images.
pub open spec fn image_views(imgs: Seq<ResourcePackImage>) -> Seq<PackImageView> {
    imgs.map_values(|i: ResourcePackImage| i@)
}

// ---------------------------------------------------------------------------
// Glyph rows.
// ---------------------------------------------------------------------------

/// The bounds of the non-blank lines of `s` from `a` on, each with its
/// whitespace trimmed, in order.
pub open spec fn rows_from(s: Seq<char>, a: int) -> Seq<(int, int)>
    decreases s.len() + 1 - a,
{
    if a >= s.len() || a < 0 {
        seq![]
    } else {
        let e = find_char(s, a, s.len() as int, '\n');
        proof {
            lemma_find_char_bounds(s, a, s.len() as int, '\n');
        }
        let (x, y) = trimmed(s, a, e);
        if x == y {
            rows_from(s, e + 1)
        } else {
            seq![(x, y)] + rows_from(s, e + 1)
        }
    }
}

/// A pixel character: `X` or `1` set, `.` or `0` clear.
pub open spec fn pixel_char(c: char) -> Option<bool> {
    if c == 'X' || c == '1' {
        Some(true)
    } else if c == '.' || c == '0' {
        Some(false)
    } else {
        None
    }
}

/// Length of row `r`.
pub open spec fn row_len(r: (int, int)) -> int {
    r.1 - r.0
}

/// The first `h` rows hold only pixel characters in their first `w`
/// characters.
pub open spec fn rows_ok(s: Seq<char>, rows: Seq<(int, int)>, w: nat, h: nat) -> bool {
    forall|y: int, x: int|
        0 <= y < h && y < rows.len() && 0 <= x < w && x < row_len(rows[y]) ==> #[trigger] pixel_char(s[rows[y].0 + x]) is Some
}

/// Pixel `(x, y)` of the glyph drawn by `rows`: clear outside the rows.
pub open spec fn row_pixel(s: Seq<char>, rows: Seq<(int, int)>, y: int, x: int) -> bool {
    0 <= y < rows.len() && 0 <= x < row_len(rows[y]) && pixel_char(s[rows[y].0 + x]) == Some(true)
}

/// The `w x h` glyph that the text `s` draws, one row per non-blank line
/// (extra rows and columns ignored, missing ones clear); None if a pixel
/// character is wrong.
pub open spec fn glyph_of(s: Seq<char>, w: nat, h: nat) -> Option<Seq<bool>> {
    let rows = rows_from(s, 0);
    if rows_ok(s, rows, w, h) {
        Some(Seq::new(w * h, |i: int| row_pixel(s, rows, i / (w as int), i % (w as int))))
    } else {
        None
    }
}

fn pixel_char_exec(c: char) -> (r: Option<bool>)
    ensures
        r == pixel_char(c),
{
    if c == 'X' || c == '1' {
        Some(true)
    } else if c == '.' || c == '0' {
        Some(false)
    } else {
        None
    }
}

proof fn lemma_div_mod(y: int, x: int, w: int)
    requires
        0 <= x < w,
        0 <= y,
    ensures
        (y * w + x) / w == y,
        (y * w + x) % w == x,
{
    vstd::arithmetic::div_mod::lemma_fundamental_div_mod_converse(y * w + x, w, y, x);
}

proof fn lemma_row_index(y: int, x: int, w: int, h: int)
    requires
        0 <= x < w,
        0 <= y < h,
    ensures
        0 <= y * w + x < w * h,
{
    assert(0 <= y * w + x < w * h) by (nonlinear_arith)
        requires
            0 <= x < w,
            0 <= y < h,
    ;
}

proof fn lemma_rows_from_skip(s: Seq<char>, a: int, e: int)
    requires
        0 <= a < s.len(),
        e == find_char(s, a, s.len() as int, '\n'),
    ensures
        a <= e <= s.len(),
        rows_from(s, a) == (if trimmed(s, a, e).0 == trimmed(s, a, e).1 {
            rows_from(s, e + 1)
        } else {
            seq![trimmed(s, a, e)] + rows_from(s, e + 1)
        }),
{
    lemma_find_char_bounds(s, a, s.len() as int, '\n');
}

/// Read the `w x h` glyph drawn by the text `s`.
pub fn parse_rows(s: &[char], w: u8, h: u8) -> (r: Option<Vec<bool>>)
    ensures
        match glyph_of(s@, w as nat, h as nat) {
            Some(g) => r matches Some(v) && v@ == g,
            None => r is None,
        },
{
    let wz = w as usize;
    let hz = h as usize;
    assert(wz * hz <= 255 * 255) by (nonlinear_arith)
        requires
            wz <= 255,
            hz <= 255,
    ;
    let n = wz * hz;
    let ghost rows = rows_from(s@, 0);
    let mut pixels: Vec<bool> = Vec::new();
    let mut k: usize = 0;
    while k < n
        invariant
            0 <= k <= n,
            pixels@ == Seq::new(k as nat, |i: int| false),
        decreases n - k,
    {
        pixels.push(false);
        assert(pixels@ =~= Seq::new((k + 1) as nat, |i: int| false));
        k = k + 1;
    }
    let mut a: usize = 0;
    let mut y: usize = 0;
    assert(rows.subrange(0, 0) + rows_from(s@, 0) =~= rows);
    while a < s.len() && y < hz
        invariant
            0 <= a <= s@.len(),
            0 <= y <= hz,
            n == wz * hz,
            wz == w,
            hz == h,
            rows == rows_from(s@, 0),
            y <= rows.len(),
            rows.subrange(0, y as int) + rows_from(s@, a as int) == rows,
            forall|yy: int, x: int|
                0 <= yy < y && 0 <= x < wz && x < row_len(rows[yy]) ==> #[trigger] pixel_char(s@[rows[yy].0 + x]) is Some,
            pixels@.len() == n,
            forall|i: int|
                0 <= i < n ==> #[trigger] pixels@[i] == (if i / (wz as int) < y {
                    row_pixel(s@, rows, i / (wz as int), i % (wz as int))
                } else {
                    false
                }),
        decreases s@.len() - a,
    {
        let e = find_char_exec(s, a, s.len(), '\n');
        proof {
            lemma_rows_from_skip(s@, a as int, e as int);
        }
        let (x0, x1) = trim(s, a, e);
        let next = if e == s.len() {
            e
        } else {
            e + 1
        };
        proof {
            if e == s@.len() {
                assert(rows_from(s@, e + 1) == rows_from(s@, e as int));
            }
        }
        if x0 < x1 {
            assert(rows_from(s@, a as int) == seq![(x0 as int, x1 as int)] + rows_from(s@, e + 1));
            assert(rows[y as int] == (x0 as int, x1 as int)) by {
                assert((rows.subrange(0, y as int) + rows_from(s@, a as int))[y as int] == rows_from(s@, a as int)[0]);
            }
            let lim = if x1 - x0 < wz {
                x1 - x0
            } else {
                wz
            };
            let mut x: usize = 0;
            while x < lim
                invariant
                    0 <= x <= lim,
                    wz == w,
                    hz == h,
                    rows == rows_from(s@, 0),
                    lim <= wz,
                    lim <= x1 - x0,
                    x0 < x1 <= s@.len(),
                    y < hz,
                    y < rows.len(),
                    n == wz * hz,
                    rows[y as int] == (x0 as int, x1 as int),
                    pixels@.len() == n,
                    forall|xx: int| 0 <= xx < x ==> #[trigger] pixel_char(s@[x0 + xx]) is Some,
                    forall|i: int|
                        0 <= i < n ==> #[trigger] pixels@[i] == (if i / (wz as int) < y || (i / (wz as int) == y && i % (wz as int) < x) {
                            row_pixel(s@, rows, i / (wz as int), i % (wz as int))
                        } else {
                            false
                        }),
                decreases lim - x,
            {
                match pixel_char_exec(s[x0 + x]) {
                    None => {
                        proof {
                            assert(pixel_char(s@[rows[y as int].0 + x]) is None);
                            assert(!rows_ok(s@, rows, w as nat, h as nat));
                        }
                        return None;
                    },
                    Some(v) => {
                        proof {
                            lemma_row_index(y as int, x as int, wz as int, hz as int);
                            lemma_div_mod(y as int, x as int, wz as int);
                        }
                        let idx = y * wz + x;
                        pixels.set(idx, v);
                        proof {
                            assert forall|i: int| 0 <= i < n implies #[trigger] pixels@[i] == (if i / (wz as int) < y || (i / (wz as int) == y && i % (wz as int) < x + 1) {
                                row_pixel(s@, rows, i / (wz as int), i % (wz as int))
                            } else {
                                false
                            }) by {
                                if i != idx {
                                    if i / (wz as int) == y && i % (wz as int) == x {
                                        vstd::arithmetic::div_mod::lemma_fundamental_div_mod(i, wz as int);
                                        assert(i == y * wz + x) by (nonlinear_arith)
                                            requires
                                                i == (wz as int) * (i / (wz as int)) + i % (wz as int),
                                                i / (wz as int) == y,
                                                i % (wz as int) == x,
                                        ;
                                    }
                                }
                            }
                        }
                    },
                }
                x = x + 1;
            }
            proof {
                assert forall|i: int| 0 <= i < n implies #[trigger] pixels@[i] == (if i / (wz as int) < y + 1 {
                    row_pixel(s@, rows, i / (wz as int), i % (wz as int))
                } else {
                    false
                }) by {
                    if i / (wz as int) == y {
                        vstd::arithmetic::div_mod::lemma_mod_bound(i, wz as int);
                        if i % (wz as int) >= x {
                            assert(!row_pixel(s@, rows, i / (wz as int), i % (wz as int)) || i % (wz as int) < lim);
                        }
                    }
                }
                assert(rows.subrange(0, y + 1) + rows_from(s@, e + 1) =~= rows) by {
                    assert(rows.subrange(0, y + 1) =~= rows.subrange(0, y as int).push((x0 as int, x1 as int)));
                }
            }
            y = y + 1;
        } else {
            assert(rows.subrange(0, y as int) + rows_from(s@, e + 1) == rows);
        }
        a = next;
    }
    proof {
        // Rows past `y` never enter the glyph: either `y == h`, or no row is left.
        if y < hz {
            assert(rows_from(s@, a as int) =~= Seq::<(int, int)>::empty());
            assert(rows.len() == y) by {
                assert(rows =~= rows.subrange(0, y as int));
            }
        }
        assert(rows_ok(s@, rows, w as nat, h as nat));
        assert(pixels@ =~= Seq::new(w as nat * h as nat, |i: int| row_pixel(s@, rows, i / (w as int), i % (w as int)))) by {
            assert forall|i: int| 0 <= i < n implies i / (wz as int) < y || !#[trigger] row_pixel(s@, rows, i / (wz as int), i % (wz as int)) by {
                if i / (wz as int) >= y {
                    if y < hz {
                        assert(i / (wz as int) >= rows.len());
                    } else {
                        assert(wz > 0) by (nonlinear_arith)
                            requires
                                n == wz * hz,
                                0 <= i < n,
                        ;
                        vstd::arithmetic::div_mod::lemma_fundamental_div_mod(i, wz as int);
                        vstd::arithmetic::div_mod::lemma_mod_bound(i, wz as int);
                        assert(i / (wz as int) < hz) by (nonlinear_arith)
                            requires
                                i == (wz as int) * (i / (wz as int)) + i % (wz as int),
                                0 <= i % (wz as int),
                                i < (wz as int) * (hz as int),
                                wz > 0,
                        ;
                    }
                }
            }
        }
    }
    Some(pixels)
}


// ---------------------------------------------------------------------------
// Manifests.
// ---------------------------------------------------------------------------

/// `ResourcePack`.
pub open spec fn w_resource_pack() -> Seq<u8> {
    seq![82u8, 101, 115, 111, 117, 114, 99, 101, 80, 97, 99, 107]
}

/// `Definition`.
pub open spec fn w_definition() -> Seq<u8> {
    seq![68u8, 101, 102, 105, 110, 105, 116, 105, 111, 110]
}

/// `Name`.
pub open spec fn w_name() -> Seq<u8> {
    seq![78u8, 97, 109, 101]
}

/// `Version`.
pub open spec fn w_version() -> Seq<u8> {
    seq![86u8, 101, 114, 115, 105, 111, 110]
}

/// `Author`.
pub open spec fn w_author() -> Seq<u8> {
    seq![65u8, 117, 116, 104, 111, 114]
}

/// `Description`.
pub open spec fn w_description() -> Seq<u8> {
    seq![68u8, 101, 115, 99, 114, 105, 112, 116, 105, 111, 110]
}

/// `Image`.
pub open spec fn w_image() -> Seq<u8> {
    seq![73u8, 109, 97, 103, 101]
}

/// `Index`.
pub open spec fn w_index() -> Seq<u8> {
    seq![73u8, 110, 100, 101, 120]
}

/// `Width`.
pub open spec fn w_width() -> Seq<u8> {
    seq![87u8, 105, 100, 116, 104]
}

/// `Height`.
pub open spec fn w_height() -> Seq<u8> {
    seq![72u8, 101, 105, 103, 104, 116]
}

/// `Data`.
pub open spec fn w_data() -> Seq<u8> {
    seq![68u8, 97, 116, 97]
}


/// The fields of a manifest read so far.
pub struct PackFields {
    pub definition: Seq<char>,
    pub name: Seq<char>,
    pub version: Seq<char>,
    pub author: Seq<char>,
    pub description: Seq<char>,
    pub images: Seq<PackImageView>,
}

/// The number in `v` with whitespace around, as `from_str_radix` reads it.
pub open spec fn trimmed_number(v: Seq<char>, radix: nat, max: nat) -> Option<nat> {
    let (a, b) = trimmed(v, 0, v.len() as int);
    parse_unsigned(v, a, b, radix, max)
}

/// `Index` (hex), `Width` and `Height` (decimal) of an `Image` tag, the last
/// of each, every one of them read; None if one is no number.
pub open spec fn image_attrs(attrs: Seq<XmlAttrView>) -> Option<(nat, nat, nat)>
    decreases attrs.len(),
{
    if attrs.len() == 0 {
        Some((0, 0, 0))
    } else {
        match image_attrs(attrs.drop_last()) {
            None => None,
            Some((i, w, h)) => {
                let a = attrs.last();
                if a.key == w_index() {
                    match trimmed_number(a.value, 16, 0xFFFF_FFFF) {
                        Some(v) => Some((v, w, h)),
                        None => None,
                    }
                } else if a.key == w_width() {
                    match trimmed_number(a.value, 10, 255) {
                        Some(v) => Some((i, v, h)),
                        None => None,
                    }
                } else if a.key == w_height() {
                    match trimmed_number(a.value, 10, 255) {
                        Some(v) => Some((i, w, v)),
                        None => None,
                    }
                } else {
                    Some((i, w, h))
                }
            },
        }
    }
}

/// The fields a `ResourcePack` tag with `attrs` sets (the last of each).
pub open spec fn pack_attrs(f: PackFields, attrs: Seq<XmlAttrView>) -> PackFields {
    PackFields {
        definition: match last_value(attrs, w_definition()) { Some(v) => v, None => f.definition },
        name: match last_value(attrs, w_name()) { Some(v) => v, None => f.name },
        version: match last_value(attrs, w_version()) { Some(v) => v, None => f.version },
        author: match last_value(attrs, w_author()) { Some(v) => v, None => f.author },
        ..f
    }
}

/// The manifest read from the events `evs`, given the fields read so far,
/// the image open, and the text gathered; None if it is refused.
pub open spec fn scan_pack(
    evs: Seq<XmlEventView>,
    f: PackFields,
    cur: Option<PackImageView>,
    text: Seq<char>,
) -> Option<PackFields>
    decreases evs.len(),
{
    if evs.len() == 0 {
        Some(f)
    } else {
        let rest = evs.drop_first();
        match evs[0] {
            XmlEventView::Eof => Some(f),
            XmlEventView::Malformed => None,
            XmlEventView::Open { name, attrs, bad_attr, empty: _ } => if name == w_resource_pack() {
                if bad_attr {
                    None
                } else {
                    scan_pack(rest, pack_attrs(f, attrs), cur, text)
                }
            } else if name == w_description() || name == w_data() {
                scan_pack(rest, f, cur, seq![])
            } else if name == w_image() {
                if bad_attr {
                    None
                } else {
                    match image_attrs(attrs) {
                        Some((i, w, h)) => scan_pack(
                            rest,
                            f,
                            Some(PackImageView { index: i as u32, width: w as u8, height: h as u8, pixels: seq![] }),
                            text,
                        ),
                        None => None,
                    }
                }
            } else {
                scan_pack(rest, f, cur, text)
            },
            XmlEventView::Text { text: t } => scan_pack(rest, f, cur, text + t),
            XmlEventView::Close { name } => if name == w_data() {
                match cur {
                    Some(c) => match glyph_of(text, c.width as nat, c.height as nat) {
                        Some(g) => scan_pack(rest, f, Some(PackImageView { pixels: g, ..c }), text),
                        None => None,
                    },
                    None => scan_pack(rest, f, cur, text),
                }
            } else if name == w_image() {
                match cur {
                    Some(c) => scan_pack(rest, PackFields { images: f.images.push(c), ..f }, None, text),
                    None => scan_pack(rest, f, cur, text),
                }
            } else if name == w_description() {
                let (a, b) = trimmed(text, 0, text.len() as int);
                scan_pack(rest, PackFields { description: text.subrange(a, b), ..f }, cur, text)
            } else {
                scan_pack(rest, f, cur, text)
            },
            XmlEventView::Other => scan_pack(rest, f, cur, text),
        }
    }
}

/// The manifest a document's events give.
pub open spec fn pack_of(evs: Seq<XmlEventView>) -> Option<PackFields> {
    scan_pack(
        evs,
        PackFields { definition: seq![], name: seq![], version: seq![], author: seq![], description: seq![], images: seq![] },
        None,
        seq![],
    )
}

/// The fields `pack` holds.
pub open spec fn pack_fields(pack: ResourcePack) -> PackFields {
    PackFields {
        definition: pack.definition@,
        name: pack.name@,
        version: pack.version@,
        author: pack.author@,
        description: pack.description@,
        images: image_views(pack.images@),
    }
}

/// `s` without its leading byte-order marks.
pub open spec fn strip_bom(s: Seq<char>) -> Seq<char>
    decreases s.len(),
{
    if s.len() > 0 && s[0] == '\u{feff}' {
        strip_bom(s.drop_first())
    } else {
        s
    }
}

fn is_resource_pack(b: &[u8]) -> (r: bool)
    ensures
        r == (b@ == w_resource_pack()),
{
    let w: [u8; 12] = [82, 101, 115, 111, 117, 114, 99, 101, 80, 97, 99, 107];
    bytes_eq(b, &w)
}

fn is_definition(b: &[u8]) -> (r: bool)
    ensures
        r == (b@ == w_definition()),
{
    let w: [u8; 10] = [68, 101, 102, 105, 110, 105, 116, 105, 111, 110];
    bytes_eq(b, &w)
}

fn is_name(b: &[u8]) -> (r: bool)
    ensures
        r == (b@ == w_name()),
{
    let w: [u8; 4] = [78, 97, 109, 101];
    bytes_eq(b, &w)
}

fn is_version(b: &[u8]) -> (r: bool)
    ensures
        r == (b@ == w_version()),
{
    let w: [u8; 7] = [86, 101, 114, 115, 105, 111, 110];
    bytes_eq(b, &w)
}

fn is_author(b: &[u8]) -> (r: bool)
    ensures
        r == (b@ == w_author()),
{
    let w: [u8; 6] = [65, 117, 116, 104, 111, 114];
    bytes_eq(b, &w)
}

fn is_description(b: &[u8]) -> (r: bool)
    ensures
        r == (b@ == w_description()),
{
    let w: [u8; 11] = [68, 101, 115, 99, 114, 105, 112, 116, 105, 111, 110];
    bytes_eq(b, &w)
}

fn is_image(b: &[u8]) -> (r: bool)
    ensures
        r == (b@ == w_image()),
{
    let w: [u8; 5] = [73, 109, 97, 103, 101];
    bytes_eq(b, &w)
}

fn is_index(b: &[u8]) -> (r: bool)
    ensures
        r == (b@ == w_index()),
{
    let w: [u8; 5] = [73, 110, 100, 101, 120];
    bytes_eq(b, &w)
}

fn is_width(b: &[u8]) -> (r: bool)
    ensures
        r == (b@ == w_width()),
{
    let w: [u8; 5] = [87, 105, 100, 116, 104];
    bytes_eq(b, &w)
}

fn is_height(b: &[u8]) -> (r: bool)
    ensures
        r == (b@ == w_height()),
{
    let w: [u8; 6] = [72, 101, 105, 103, 104, 116];
    bytes_eq(b, &w)
}

fn is_data(b: &[u8]) -> (r: bool)
    ensures
        r == (b@ == w_data()),
{
    let w: [u8; 4] = [68, 97, 116, 97];
    bytes_eq(b, &w)
}


fn image_attrs_exec(attrs: &[XmlAttr]) -> (r: Option<(u32, u8, u8)>)
    ensures
        match image_attrs(attr_views(attrs@)) {
            Some((i, w, h)) => r == Some((i as u32, w as u8, h as u8)) && i <= 0xFFFF_FFFF && w <= 255 && h <= 255,
            None => r is None,
        },
{
    let mut index: u32 = 0;
    let mut width: u8 = 0;
    let mut height: u8 = 0;
    let mut k: usize = 0;
    while k < attrs.len()
        invariant
            0 <= k <= attrs@.len(),
            image_attrs(attr_views(attrs@.subrange(0, k as int))) == Some((index as nat, width as nat, height as nat)),
        decreases attrs@.len() - k,
    {
        assert(attr_views(attrs@.subrange(0, k + 1)).drop_last() =~= attr_views(attrs@.subrange(0, k as int)));
        let a = &attrs[k];
        let key = a.key.as_slice();
        if is_index(key) || is_width(key) || is_height(key) {
            let cs = chars_of(a.value.as_str());
            let (x, y) = trim(cs.as_slice(), 0, cs.len());
            let (radix, max): (u32, u64) = if is_index(key) {
                (16, 0xFFFF_FFFF)
            } else {
                (10, 255)
            };
            match parse_unsigned_exec(cs.as_slice(), x, y, radix, max) {
                Some(v) => {
                    if is_index(key) {
                        index = v as u32;
                    } else if is_width(key) {
                        width = v as u8;
                    } else {
                        height = v as u8;
                    }
                },
                None => {
                    proof {
                        lemma_image_attrs_none(attr_views(attrs@), k as int);
                    }
                    return None;
                },
            }
        }
        k = k + 1;
    }
    assert(attrs@.subrange(0, attrs@.len() as int) =~= attrs@);
    Some((index, width, height))
}

proof fn lemma_image_attrs_none(attrs: Seq<XmlAttrView>, i: int)
    requires
        0 <= i < attrs.len(),
        image_attrs(attrs.subrange(0, i + 1)) is None,
    ensures
        image_attrs(attrs) is None,
    decreases attrs.len() - i,
{
    if i + 1 < attrs.len() {
        assert(attrs.subrange(0, i + 2).drop_last() =~= attrs.subrange(0, i + 1));
        lemma_image_attrs_none(attrs, i + 1);
    } else {
        assert(attrs.subrange(0, i + 1) =~= attrs);
    }
}

fn set_last(target: &mut String, attrs: &[XmlAttr], key: &[u8])
    ensures
        final(target)@ == (match last_value(attr_views(attrs@), key@) {
            Some(v) => v,
            None => old(target)@,
        }),
{
    match find_last(attrs, key) {
        Some(v) => {
            *target = v.clone();
        },
        None => {},
    }
}

fn slice_chars(s: &[char], a: usize, b: usize) -> (r: Vec<char>)
    requires
        a <= b <= s@.len(),
    ensures
        r@ == s@.subrange(a as int, b as int),
{
    let mut out: Vec<char> = Vec::new();
    let mut k = a;
    while k < b
        invariant
            a <= k <= b <= s@.len(),
            out@ == s@.subrange(a as int, k as int),
        decreases b - k,
    {
        out.push(s[k]);
        assert(out@ =~= s@.subrange(a as int, k + 1));
        k = k + 1;
    }
    out
}

/// The manifest that the events of a `.respack` document give.
pub fn pack_from_events(evs: &[XmlEvent]) -> (r: Result<ResourcePack, FirmwareError>)
    ensures
        match pack_of(views(evs@)) {
            Some(f) => r matches Ok(p) && pack_fields(p) == f,
            None => r matches Err(FirmwareError::Xml(_)),
        },
{
    let mut pack = ResourcePack {
        definition: String::new(),
        name: String::new(),
        version: String::new(),
        author: String::new(),
        description: String::new(),
        images: Vec::new(),
    };
    let mut cur: Option<ResourcePackImage> = None;
    let mut text: Vec<char> = Vec::new();
    let mut i: usize = 0;
    let ghost all = views(evs@);
    assert(all.subrange(0, all.len() as int) =~= all);
    proof {
        assert(pack.definition@ =~= Seq::<char>::empty());
        assert(pack.name@ =~= Seq::<char>::empty());
        assert(pack.version@ =~= Seq::<char>::empty());
        assert(pack.author@ =~= Seq::<char>::empty());
        assert(pack.description@ =~= Seq::<char>::empty());
        assert(image_views(pack.images@) =~= Seq::<PackImageView>::empty());
        assert(text@ =~= Seq::<char>::empty());
    }
    while i < evs.len()
        invariant
            0 <= i <= evs@.len(),
            all == views(evs@),
            pack_of(all) == scan_pack(
                all.subrange(i as int, all.len() as int),
                pack_fields(pack),
                match cur { Some(c) => Some(c@), None => None },
                text@,
            ),
        decreases evs@.len() - i,
    {
        let ghost rest = all.subrange(i as int, all.len() as int);
        assert(rest.drop_first() =~= all.subrange(i + 1, all.len() as int));
        assert(rest[0] == evs@[i as int]@);
        match &evs[i] {
            XmlEvent::Eof => {
                return Ok(pack);
            },
            XmlEvent::Malformed => {
                return Err(FirmwareError::Xml("malformed resource pack".to_owned()));
            },
            XmlEvent::Open { name, attrs, bad_attr, empty: _ } => {
                let n = name.as_slice();
                if is_resource_pack(n) {
                    if *bad_attr {
                        return Err(FirmwareError::Xml("malformed resource pack attribute".to_owned()));
                    }
                    let kd: [u8; 10] = [68, 101, 102, 105, 110, 105, 116, 105, 111, 110];
                    let kn: [u8; 4] = [78, 97, 109, 101];
                    let kv: [u8; 7] = [86, 101, 114, 115, 105, 111, 110];
                    let ka: [u8; 6] = [65, 117, 116, 104, 111, 114];
                    set_last(&mut pack.definition, attrs.as_slice(), &kd);
                    set_last(&mut pack.name, attrs.as_slice(), &kn);
                    set_last(&mut pack.version, attrs.as_slice(), &kv);
                    set_last(&mut pack.author, attrs.as_slice(), &ka);
                } else if is_description(n) || is_data(n) {
                    text = Vec::new();
                } else if is_image(n) {
                    if *bad_attr {
                        return Err(FirmwareError::Xml("malformed image attribute".to_owned()));
                    }
                    match image_attrs_exec(attrs.as_slice()) {
                        Some((index, width, height)) => {
                            let img = ResourcePackImage { index, width, height, pixels: Vec::new() };
                            assert(img@.pixels =~= Seq::<bool>::empty());
                            cur = Some(img);
                        },
                        None => {
                            return Err(FirmwareError::Xml("bad image attribute".to_owned()));
                        },
                    }
                }
            },
            XmlEvent::Text { text: t } => {
                let cs = chars_of(t.as_str());
                let ghost before = text@;
                let mut k: usize = 0;
                while k < cs.len()
                    invariant
                        0 <= k <= cs@.len(),
                        text@ == before + cs@.subrange(0, k as int),
                    decreases cs@.len() - k,
                {
                    text.push(cs[k]);
                    assert(text@ =~= before + cs@.subrange(0, k + 1));
                    k = k + 1;
                }
                assert(cs@.subrange(0, cs@.len() as int) =~= cs@);
            },
            XmlEvent::Close { name } => {
                let n = name.as_slice();
                if is_data(n) {
                    match cur {
                        Some(c) => {
                            match parse_rows(text.as_slice(), c.width, c.height) {
                                Some(px) => {
                                    cur = Some(ResourcePackImage { pixels: px, ..c });
                                },
                                None => {
                                    return Err(FirmwareError::Xml("bad pixel character".to_owned()));
                                },
                            }
                        },
                        None => {},
                    }
                } else if is_image(n) {
                    match cur {
                        Some(c) => {
                            let ghost before = image_views(pack.images@);
                            let ghost cv = c@;
                            pack.images.push(c);
                            assert(image_views(pack.images@) =~= before.push(cv));
                            cur = None;
                        },
                        None => {},
                    }
                } else if is_description(n) {
                    let (a, b) = trim(text.as_slice(), 0, text.len());
                    let d = slice_chars(text.as_slice(), a, b);
                    pack.description = string_from_chars(d.as_slice());
                }
            },
            XmlEvent::Other => {},
        }
        i = i + 1;
    }
    Ok(pack)
}

fn strip_bom_exec(xml: &str) -> (r: &str)
    ensures
        r@ == strip_bom(xml@),
{
    let n = xml.unicode_len();
    let mut k: usize = 0;
    assert(xml@.subrange(0, n as int) =~= xml@);
    while k < n && xml.get_char(k) == '\u{feff}'
        invariant
            n == xml@.len(),
            0 <= k <= n,
            strip_bom(xml@) == strip_bom(xml@.subrange(k as int, n as int)),
        decreases n - k,
    {
        assert(xml@.subrange(k as int, n as int).drop_first() =~= xml@.subrange(k + 1, n as int));
        k = k + 1;
    }
    proof {
        if k == 0 {
            assert(xml@.subrange(0, n as int) =~= xml@);
        }
    }
    xml.substring_char(k, n)
}

/// Parse a `.respack` manifest: a `ResourcePack` element (`Definition`,
/// `Name`, `Version`, `Author`), an optional `Description`, and `Image`
/// elements (`Index` in hex, `Width`, `Height`) whose `Data` text draws the
/// glyph one row per line, `X`/`1` set and `.`/`0` clear. Leading
/// byte-order marks are skipped.
pub fn parse_respack(xml: &str) -> (r: Result<ResourcePack, FirmwareError>)
    ensures
        match pack_of(document_events(strip_bom(xml@))) {
            Some(f) => r matches Ok(p) && pack_fields(p) == f,
            None => r matches Err(FirmwareError::Xml(_)),
        },
{
    let body = strip_bom_exec(xml);
    let evs = xml_events(body);
    pack_from_events(evs.as_slice())
}


// ---------------------------------------------------------------------------
// Applying a pack.
// ---------------------------------------------------------------------------

/// The `cw x ch` canvas that image `img` is pasted on: its top-left
/// `min(width, cw) x min(height, ch)` pixels, the rest clear.
pub open spec fn canvas_of(img: PackImageView, cw: nat, ch: nat) -> Seq<bool> {
    Seq::new(
        cw * ch,
        |j: int| {
            let y = j / (cw as int);
            let x = j % (cw as int);
            if y < img.height && y < ch && x < img.width && x < cw {
                img.pixels[y * img.width + x]
            } else {
                false
            }
        },
    )
}

/// Every pixel of `img` that the paste reads is there.
pub open spec fn canvas_readable(img: PackImageView, cw: nat, ch: nat) -> bool {
    forall|y: int, x: int|
        0 <= y < img.height && y < ch && 0 <= x < img.width && x < cw ==> #[trigger] (y * img.width + x) < img.pixels.len()
}

/// Outcome of applying the images of a pack in order.
pub enum PackApply {
    /// All done: the bytes, and how many images were applied and skipped.
    Done(Seq<u8>, nat, nat),
    /// A write was refused: the bytes as they were then.
    Failed(Seq<u8>),
    /// An image has fewer pixels than the paste reads.
    Short,
}

/// Apply `imgs` to `b`: each goes to the slot with its index in `s1`, else
/// in `s2`, pasted on a canvas of the slot's size; an index in neither
/// table is skipped.
pub open spec fn apply_pack(
    b: Seq<u8>,
    s1: Seq<ImageSlot>,
    s2: Seq<ImageSlot>,
    imgs: Seq<PackImageView>,
    applied: nat,
    skipped: nat,
) -> PackApply
    decreases imgs.len(),
{
    if imgs.len() == 0 {
        PackApply::Done(b, applied, skipped)
    } else {
        let img = imgs[0];
        let idx = img.index as usize;
        let rest = imgs.drop_first();
        let table = if find_slot(s1, idx) is Some {
            s1
        } else {
            s2
        };
        match find_slot(table, idx) {
            None => apply_pack(b, s1, s2, rest, applied, skipped + 1),
            Some(slot) => {
                let cw = slot.width as nat;
                let ch = slot.height as nat;
                if !canvas_readable(img, cw, ch) {
                    PackApply::Short
                } else if write_image_ok(b, table, idx, cw, ch, cw * ch) {
                    apply_pack(
                        overwrite(b, slot.data_offset as int, record_bytes(canvas_of(img, cw, ch), slot.block, cw, ch)),
                        s1,
                        s2,
                        rest,
                        applied + 1,
                        skipped,
                    )
                } else {
                    PackApply::Failed(b)
                }
            },
        }
    }
}

fn canvas_exec(img: &ResourcePackImage, cw: usize, ch: usize) -> (r: Vec<bool>)
    requires
        cw <= 255,
        ch <= 255,
        canvas_readable(img@, cw as nat, ch as nat),
    ensures
        r@ == canvas_of(img@, cw as nat, ch as nat),
{
    assert(cw * ch <= 255 * 255) by (nonlinear_arith)
        requires
            cw <= 255,
            ch <= 255,
    ;
    let n = cw * ch;
    let mut canvas: Vec<bool> = Vec::new();
    let mut k: usize = 0;
    while k < n
        invariant
            0 <= k <= n,
            canvas@ == Seq::new(k as nat, |i: int| false),
        decreases n - k,
    {
        canvas.push(false);
        assert(canvas@ =~= Seq::new((k + 1) as nat, |i: int| false));
        k = k + 1;
    }
    let iw = img.width as usize;
    let copy_w = if iw < cw {
        iw
    } else {
        cw
    };
    let copy_h = if (img.height as usize) < ch {
        img.height as usize
    } else {
        ch
    };
    let ghost target = canvas_of(img@, cw as nat, ch as nat);
    let mut y: usize = 0;
    assert forall|i: int| 0 <= i < n implies #[trigger] canvas@[i] == (if i / (cw as int) < 0 { target[i] } else { false }) by {
        assert(cw > 0) by (nonlinear_arith)
            requires
                n == cw * ch,
                0 <= i < n,
        ;
        vstd::arithmetic::div_mod::lemma_div_pos_is_pos(i, cw as int);
    }
    while y < copy_h
        invariant
            0 <= y <= copy_h,
            copy_h <= ch,
            copy_w <= cw,
            copy_w == (if iw < cw { iw } else { cw }),
            copy_h == (if (img.height as usize) < ch { img.height as usize } else { ch }),
            iw == img.width,
            n == cw * ch,
            cw <= 255,
            ch <= 255,
            target == canvas_of(img@, cw as nat, ch as nat),
            canvas_readable(img@, cw as nat, ch as nat),
            canvas@.len() == n,
            forall|i: int| 0 <= i < n ==> #[trigger] canvas@[i] == (if i / (cw as int) < y { target[i] } else { false }),
        decreases copy_h - y,
    {
        let mut x: usize = 0;
        assert forall|i: int| 0 <= i < n implies #[trigger] canvas@[i] == (if i / (cw as int) < y || (i / (cw as int) == y && i % (cw as int) < 0) {
            target[i]
        } else {
            false
        }) by {
            assert(cw > 0) by (nonlinear_arith)
                requires
                    n == cw * ch,
                    0 <= i < n,
            ;
            vstd::arithmetic::div_mod::lemma_mod_bound(i, cw as int);
        }
        while x < copy_w
            invariant
                0 <= x <= copy_w,
                0 <= y < copy_h,
                copy_h <= ch,
                copy_w <= cw,
                copy_w == (if iw < cw { iw } else { cw }),
                copy_h == (if (img.height as usize) < ch { img.height as usize } else { ch }),
                iw == img.width,
                n == cw * ch,
                cw <= 255,
                ch <= 255,
                target == canvas_of(img@, cw as nat, ch as nat),
                canvas_readable(img@, cw as nat, ch as nat),
                canvas@.len() == n,
                forall|i: int|
                    0 <= i < n ==> #[trigger] canvas@[i] == (if i / (cw as int) < y || (i / (cw as int) == y && i % (cw as int) < x) {
                        target[i]
                    } else {
                        false
                    }),
            decreases copy_w - x,
        {
            proof {
                lemma_row_index(y as int, x as int, cw as int, ch as int);
                lemma_div_mod(y as int, x as int, cw as int);
                assert((y * img.width + x) < img@.pixels.len());
                assert(y * iw + x <= 255 * 255 + 255) by (nonlinear_arith)
                    requires
                        y < 255,
                        iw <= 255,
                        x < 255,
                ;
            }
            let src = y * iw + x;
            let v = img.pixels[src];
            let idx = y * cw + x;
            canvas.set(idx, v);
            proof {
                assert(target[idx as int] == v);
                assert forall|i: int| 0 <= i < n implies #[trigger] canvas@[i] == (if i / (cw as int) < y || (i / (cw as int) == y && i % (cw as int) < x + 1) {
                    target[i]
                } else {
                    false
                }) by {
                    if i != idx {
                        if i / (cw as int) == y && i % (cw as int) == x {
                            vstd::arithmetic::div_mod::lemma_fundamental_div_mod(i, cw as int);
                            assert(i == y * cw + x) by (nonlinear_arith)
                                requires
                                    i == (cw as int) * (i / (cw as int)) + i % (cw as int),
                                    i / (cw as int) == y,
                                    i % (cw as int) == x,
                            ;
                        }
                    }
                }
            }
            x = x + 1;
        }
        proof {
            assert forall|i: int| 0 <= i < n implies #[trigger] canvas@[i] == (if i / (cw as int) < y + 1 { target[i] } else { false }) by {
                if i / (cw as int) == y {
                    if i % (cw as int) >= x {
                        assert(target[i] == false);
                    }
                }
            }
        }
        y = y + 1;
    }
    proof {
        assert forall|i: int| 0 <= i < n implies #[trigger] canvas@[i] == target[i] by {
            if i / (cw as int) >= y {
                assert(target[i] == false);
            }
        }
        assert(canvas@ =~= target);
    }
    canvas
}

/// Records of the slots of a table start inside the image.
proof fn lemma_table_slots_in(b: Seq<u8>, from: int, count: int, k: int, block: u8)
    ensures
        forall|i: int|
            0 <= i < table_slots(b, from, count, k, block).len() ==> #[trigger] table_slots(b, from, count, k, block)[i].data_offset + 2
                <= b.len(),
    decreases count - k,
{
    if k < count {
        lemma_table_slots_in(b, from, count, k + 1, block);
        let rest = table_slots(b, from, count, k + 1, block);
        match slot_at(b, from + 4 * k, k + 1, block) {
            Some(s) => {
                assert forall|i: int|
                    0 <= i < table_slots(b, from, count, k, block).len() implies #[trigger] table_slots(b, from, count, k, block)[i].data_offset
                    + 2 <= b.len() by {
                    if i > 0 {
                        assert(table_slots(b, from, count, k, block)[i] == rest[i - 1]);
                    }
                }
            },
            None => {},
        }
    }
}

proof fn lemma_image_table_in(b: Seq<u8>, start: int, end: int, block: u8)
    ensures
        forall|i: int|
            0 <= i < image_table(b, start, end, block).len() ==> #[trigger] image_table(b, start, end, block)[i].data_offset + 2 <= b.len(),
{
    if !(start + 4 > b.len() || end + 4 > b.len()) {
        let from = crate::firmware::resources::u32le(b, start) as int;
        let to = crate::firmware::resources::u32le(b, end) as int;
        lemma_table_slots_in(b, from, (to - 4 - from) / 4 + 1, 0, block);
    }
}

/// `apply_pack` from the start, for the image tables of `bytes`.
pub open spec fn pack_applied(bytes: Seq<u8>, pack: ResourcePack, definition: FirmwareDefinition) -> PackApply {
    apply_pack(
        bytes,
        image_table(bytes, definition.image_table_1.start as int, definition.image_table_1.end as int, BLOCK1),
        image_table(bytes, definition.image_table_2.start as int, definition.image_table_2.end as int, BLOCK2),
        image_views(pack.images@),
        0,
        0,
    )
}

/// Apply a resource pack to an opened image: each pack image goes to the
/// slot with its index in Block1, else Block2, pasted top-left on a canvas
/// of the slot's own size; indices in neither table are skipped. Returns
/// `(applied, skipped)`. A refused write stops the run with the images
/// before it applied.
pub fn apply_respack(
    bytes: &mut Vec<u8>,
    pack: &ResourcePack,
    definition: &FirmwareDefinition,
) -> (r: Result<(usize, usize), FirmwareError>)
    requires
        !(pack_applied(old(bytes)@, *pack, *definition) is Short),
    ensures
        match pack_applied(old(bytes)@, *pack, *definition) {
            PackApply::Done(b, a, s) => r == Ok::<(usize, usize), FirmwareError>((a as usize, s as usize)) && final(bytes)@ == b,
            PackApply::Failed(b) => r is Err && final(bytes)@ == b,
            PackApply::Short => false,
        },
{
    let slots1 = match parse_image_table(bytes.as_slice(), definition.image_table_1.start..definition.image_table_1.end, BLOCK1) {
        Ok(s) => s,
        Err(e) => {
            return Err(e);
        },
    };
    let slots2 = match parse_image_table(bytes.as_slice(), definition.image_table_2.start..definition.image_table_2.end, BLOCK2) {
        Ok(s) => s,
        Err(e) => {
            return Err(e);
        },
    };
    let ghost b0 = bytes@;
    proof {
        lemma_image_table_in(b0, definition.image_table_1.start as int, definition.image_table_1.end as int, BLOCK1);
        lemma_image_table_in(b0, definition.image_table_2.start as int, definition.image_table_2.end as int, BLOCK2);
    }
    let ghost all = image_views(pack.images@);
    let mut applied: usize = 0;
    let mut skipped: usize = 0;
    let mut k: usize = 0;
    assert(all.subrange(0, all.len() as int) =~= all);
    while k < pack.images.len()
        invariant
            0 <= k <= pack.images@.len(),
            all == image_views(pack.images@),
            old(bytes)@ == b0,
            pack_applied(b0, *pack, *definition) == apply_pack(b0, slots1@, slots2@, all, 0, 0),
            !(apply_pack(b0, slots1@, slots2@, all, 0, 0) is Short),
            applied + skipped == k,
            bytes@.len() == b0.len(),
            forall|i: int| 0 <= i < slots1@.len() ==> #[trigger] slots1@[i].data_offset + 2 <= b0.len(),
            forall|i: int| 0 <= i < slots2@.len() ==> #[trigger] slots2@[i].data_offset + 2 <= b0.len(),
            apply_pack(b0, slots1@, slots2@, all, 0, 0) == apply_pack(
                bytes@,
                slots1@,
                slots2@,
                all.subrange(k as int, all.len() as int),
                applied as nat,
                skipped as nat,
            ),
        decreases pack.images@.len() - k,
    {
        let ghost rest = all.subrange(k as int, all.len() as int);
        assert(rest.drop_first() =~= all.subrange(k + 1, all.len() as int));
        let img = &pack.images[k];
        assert(rest[0] == img@);
        let idx = img.index as usize;
        let found1 = find_slot_exec(slots1.as_slice(), idx);
        let table: &Vec<ImageSlot> = if found1.is_some() {
            &slots1
        } else {
            &slots2
        };
        match find_slot_exec(table.as_slice(), idx) {
            None => {
                skipped = skipped + 1;
            },
            Some(slot) => {
                let cw = slot.width as usize;
                let ch = slot.height as usize;
                let canvas = canvas_exec(img, cw, ch);
                assert forall|i: int| 0 <= i < table@.len() implies #[trigger] table@[i].data_offset <= bytes@.len() by {
                    if found1.is_some() {
                        assert(slots1@[i].data_offset + 2 <= b0.len());
                    } else {
                        assert(slots2@[i].data_offset + 2 <= b0.len());
                    }
                }
                proof {
                    lemma_write_image_in_bounds(bytes@, table@, idx, cw as nat, ch as nat, canvas@.len());
                }
                match write_image(bytes, table.as_slice(), idx, cw, ch, canvas.as_slice()) {
                    Ok(()) => {
                        applied = applied + 1;
                    },
                    Err(e) => {
                        return Err(e);
                    },
                }
            },
        }
        k = k + 1;
    }
    Ok((applied, skipped))
}

fn find_slot_exec(slots: &[ImageSlot], index: usize) -> (r: Option<ImageSlot>)
    ensures
        r == find_slot(slots@, index),
{
    let mut i: usize = 0;
    let ghost all = slots@;
    assert(all.subrange(0, all.len() as int) =~= all);
    while i < slots.len()
        invariant
            0 <= i <= slots@.len(),
            all == slots@,
            find_slot(all, index) == find_slot(all.subrange(i as int, all.len() as int), index),
        decreases slots@.len() - i,
    {
        let ghost rest = all.subrange(i as int, all.len() as int);
        assert(rest.drop_first() =~= all.subrange(i + 1, all.len() as int));
        if slots[i].index == index {
            return Some(slots[i]);
        }
        i = i + 1;
    }
    None
}

} // verus!
