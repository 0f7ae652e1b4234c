//! Firmware definitions: the marker that identifies a build and the
//! locations of its image and string tables.

use crate::firmware::error::FirmwareError;
use crate::firmware::text::{
    chars_of, digit_value, lowercase, lowercase_string, parse_unsigned, parse_unsigned_exec,
    string_from_chars, trim, trimmed, is_white, white,
};
use crate::firmware::xml::{
    attr_views, bytes_eq, document_events, find_last, last_value, views, xml_events, xml_tokens,
    XmlAttr, XmlAttrView, XmlEvent, XmlEventView,
};
use std::ops::Range;
use vstd::prelude::*;

verus! {

/// What is known of one firmware build.
#[derive(Debug)]
pub struct FirmwareDefinition {
    pub id: String,
    pub name: String,
    /// Bytes whose presence in an image identifies the build.
    pub marker: Vec<u8>,
    pub image_table_1: Range<usize>,
    pub image_table_2: Range<usize>,
    pub string_table_1: Range<usize>,
    pub string_table_2: Range<usize>,
    /// Bytes per string glyph (1, or 2 for `TwoBytesPerChar`).
    pub char_width: u8,
}

/// Two definitions with the same contents.
pub open spec fn same_definition(a: FirmwareDefinition, b: FirmwareDefinition) -> bool {
    &&& a.id@ == b.id@
    &&& a.name@ == b.name@
    &&& a.marker@ == b.marker@
    &&& a.image_table_1 == b.image_table_1
    &&& a.image_table_2 == b.image_table_2
    &&& a.string_table_1 == b.string_table_1
    &&& a.string_table_2 == b.string_table_2
    &&& a.char_width == b.char_width
}

fn copy_range(r: &Range<usize>) -> (c: Range<usize>)
    ensures
        c == *r,
{
    Range { start: r.start, end: r.end }
}

/// A copy of the bytes.
pub fn copy_bytes(b: &[u8]) -> (c: Vec<u8>)
    ensures
        c@ == b@,
{
    let mut c: Vec<u8> = Vec::new();
    let mut i: usize = 0;
    while i < b.len()
        invariant
            0 <= i <= b@.len(),
            c@ == b@.subrange(0, i as int),
        decreases b@.len() - i,
    {
        c.push(b[i]);
        assert(c@ =~= b@.subrange(0, i + 1));
        i = i + 1;
    }
    assert(c@ =~= b@);
    c
}

impl FirmwareDefinition {
    /// A definition with the same contents.
    pub fn duplicate(&self) -> (c: Self)
        ensures
            same_definition(c, *self),
    {
        FirmwareDefinition {
            id: self.id.clone(),
            name: self.name.clone(),
            marker: copy_bytes(self.marker.as_slice()),
            image_table_1: copy_range(&self.image_table_1),
            image_table_2: copy_range(&self.image_table_2),
            string_table_1: copy_range(&self.string_table_1),
            string_table_2: copy_range(&self.string_table_2),
            char_width: self.char_width,
        }
    }
}

impl Default for FirmwareDefinition {
    fn default() -> (d: Self)
        ensures
            d.id@.len() == 0,
            d.name@.len() == 0,
            d.marker@.len() == 0,
            d.image_table_1 == (0usize..0usize),
            d.image_table_2 == (0usize..0usize),
            d.string_table_1 == (0usize..0usize),
            d.string_table_2 == (0usize..0usize),
            d.char_width == 1,
    {
        FirmwareDefinition {
            id: String::new(),
            name: String::new(),
            marker: Vec::new(),
            image_table_1: 0..0,
            image_table_2: 0..0,
            string_table_1: 0..0,
            string_table_2: 0..0,
            char_width: 1,
        }
    }
}


// ---------------------------------------------------------------------------
// Attribute values: marker bytes, addresses and flags.
// ---------------------------------------------------------------------------

/// `s` with each `0x` or `0X` replaced by a space, scanning left to right.
pub open spec fn strip_hex_prefixes(s: Seq<char>) -> Seq<char>
    decreases s.len(),
{
    if s.len() == 0 {
        s
    } else if s.len() >= 2 && s[0] == '0' && (s[1] == 'x' || s[1] == 'X') {
        seq![' '] + strip_hex_prefixes(s.subrange(2, s.len() as int))
    } else {
        seq![s[0]] + strip_hex_prefixes(s.drop_first())
    }
}

/// `s` without its whitespace.
pub open spec fn drop_white(s: Seq<char>) -> Seq<char>
    decreases s.len(),
{
    if s.len() == 0 {
        s
    } else if is_white(s.last()) {
        drop_white(s.drop_last())
    } else {
        drop_white(s.drop_last()).push(s.last())
    }
}

/// Whether `c` is encoded in UTF-8 as one byte.
pub open spec fn is_ascii_char(c: char) -> bool {
    (c as u32) < 0x80
}

/// Length of the UTF-8 encoding of `c`.
pub open spec fn utf8_len(c: char) -> nat {
    if (c as u32) < 0x80 {
        1
    } else if (c as u32) < 0x800 {
        2
    } else if (c as u32) < 0x10000 {
        3
    } else {
        4
    }
}

/// Length of the UTF-8 encoding of `s`.
pub open spec fn byte_len(s: Seq<char>) -> nat
    decreases s.len(),
{
    if s.len() == 0 {
        0
    } else {
        byte_len(s.drop_last()) + utf8_len(s.last())
    }
}

/// The byte that the two characters `a`, `b` spell in hexadecimal, as
/// `u8::from_str_radix` reads them.
pub open spec fn pair_value(a: char, b: char) -> Option<nat> {
    parse_unsigned(seq![a, b], 0, 2, 16, 255)
}

/// The bytes spelt by the character pairs of `f` from `i` on; None if a pair
/// is no byte.
pub open spec fn hex_pairs(f: Seq<char>, i: int) -> Option<Seq<u8>>
    decreases f.len() - i,
{
    if i >= f.len() {
        Some(seq![])
    } else if i + 1 < f.len() && is_ascii_char(f[i]) && is_ascii_char(f[i + 1]) {
        match (pair_value(f[i], f[i + 1]), hex_pairs(f, i + 2)) {
            (Some(v), Some(rest)) => Some(seq![v as u8] + rest),
            _ => None,
        }
    } else {
        None
    }
}

/// Reading `f` two bytes at a time from `i` on reaches a pair of bytes that
/// ends inside a multi-byte character before any pair is refused.
pub open spec fn hex_pairs_split(f: Seq<char>, i: int) -> bool
    decreases f.len() - i,
{
    if i >= f.len() {
        false
    } else if i + 1 < f.len() && is_ascii_char(f[i]) && is_ascii_char(f[i + 1]) {
        pair_value(f[i], f[i + 1]) is Some && hex_pairs_split(f, i + 2)
    } else if is_ascii_char(f[i]) {
        true
    } else {
        utf8_len(f[i]) > 2
    }
}

/// The hex digits of a marker text: prefixes and whitespace gone.
pub open spec fn hex_text(s: Seq<char>) -> Seq<char> {
    drop_white(strip_hex_prefixes(s))
}

/// The marker bytes written in `s` ("0x41 0x46" or "4146"); None if `s` is
/// no such text.
pub open spec fn hex_bytes(s: Seq<char>) -> Option<Seq<u8>> {
    let f = hex_text(s);
    if byte_len(f) % 2 == 1 {
        None
    } else {
        hex_pairs(f, 0)
    }
}

/// Reading the marker text two bytes at a time would cut a character.
pub open spec fn hex_bytes_split(s: Seq<char>) -> bool {
    let f = hex_text(s);
    byte_len(f) % 2 == 0 && hex_pairs_split(f, 0)
}

/// Outcome of reading a marker text.
pub enum HexRead {
    Bytes(Vec<u8>),
    /// The text is no list of bytes.
    Invalid,
    /// A pair of bytes would end inside a multi-byte character.
    Split,
}

fn strip_hex_prefixes_exec(s: &[char]) -> (r: Vec<char>)
    ensures
        r@ == strip_hex_prefixes(s@),
{
    let mut out: Vec<char> = Vec::new();
    let mut i: usize = 0;
    assert(s@.subrange(0, s@.len() as int) =~= s@);
    assert(out@ + strip_hex_prefixes(s@) =~= strip_hex_prefixes(s@));
    while i < s.len()
        invariant
            0 <= i <= s@.len(),
            out@ + strip_hex_prefixes(s@.subrange(i as int, s@.len() as int)) == strip_hex_prefixes(s@),
        decreases s@.len() - i,
    {
        let rest = Ghost(s@.subrange(i as int, s@.len() as int));
        if i + 1 < s.len() && s[i] == '0' && (s[i + 1] == 'x' || s[i + 1] == 'X') {
            assert(rest@.subrange(2, rest@.len() as int) =~= s@.subrange(i + 2, s@.len() as int));
            out.push(' ');
            assert(out@ + strip_hex_prefixes(s@.subrange(i + 2, s@.len() as int)) =~= strip_hex_prefixes(s@));
            i = i + 2;
        } else {
            assert(rest@.drop_first() =~= s@.subrange(i + 1, s@.len() as int));
            out.push(s[i]);
            assert(out@ + strip_hex_prefixes(s@.subrange(i + 1, s@.len() as int)) =~= strip_hex_prefixes(s@));
            i = i + 1;
        }
    }
    assert(s@.subrange(s@.len() as int, s@.len() as int) =~= Seq::<char>::empty());
    assert(out@ =~= strip_hex_prefixes(s@));
    out
}

fn drop_white_exec(s: &[char]) -> (r: Vec<char>)
    ensures
        r@ == drop_white(s@),
{
    let mut out: Vec<char> = Vec::new();
    let mut i: usize = 0;
    while i < s.len()
        invariant
            0 <= i <= s@.len(),
            out@ == drop_white(s@.subrange(0, i as int)),
        decreases s@.len() - i,
    {
        assert(s@.subrange(0, i + 1).drop_last() =~= s@.subrange(0, i as int));
        if !white(s[i]) {
            out.push(s[i]);
        }
        i = i + 1;
    }
    assert(s@.subrange(0, s@.len() as int) =~= s@);
    out
}

fn utf8_len_exec(c: char) -> (r: u8)
    ensures
        r == utf8_len(c),
{
    let u = c as u32;
    if u < 0x80 {
        1
    } else if u < 0x800 {
        2
    } else if u < 0x10000 {
        3
    } else {
        4
    }
}

proof fn lemma_pair_value_range(a: char, b: char)
    ensures
        pair_value(a, b) matches Some(v) ==> v <= 255,
{
}

/// Read the bytes of a marker text.
pub fn hex_to_bytes(s: &[char]) -> (r: HexRead)
    ensures
        hex_bytes_split(s@) ==> r is Split,
        !hex_bytes_split(s@) ==> match hex_bytes(s@) {
            Some(b) => r matches HexRead::Bytes(v) && v@ == b,
            None => r is Invalid,
        },
{
    let stripped = strip_hex_prefixes_exec(s);
    let f = drop_white_exec(stripped.as_slice());
    assert(f@ == hex_text(s@));
    let mut odd = false;
    let mut k: usize = 0;
    while k < f.len()
        invariant
            0 <= k <= f@.len(),
            odd == (byte_len(f@.subrange(0, k as int)) % 2 == 1),
        decreases f@.len() - k,
    {
        assert(f@.subrange(0, k + 1).drop_last() =~= f@.subrange(0, k as int));
        if utf8_len_exec(f[k]) % 2 == 1 {
            odd = !odd;
        }
        k = k + 1;
    }
    assert(f@.subrange(0, f@.len() as int) =~= f@);
    if odd {
        return HexRead::Invalid;
    }
    let mut out: Vec<u8> = Vec::new();
    let mut i: usize = 0;
    while i < f.len()
        invariant
            0 <= i <= f@.len(),
            f@ == hex_text(s@),
            byte_len(f@) % 2 == 0,
            hex_pairs(f@, 0) == (match hex_pairs(f@, i as int) {
                Some(rest) => Some(out@ + rest),
                None => None,
            }),
            hex_pairs_split(f@, 0) == hex_pairs_split(f@, i as int),
        decreases f@.len() - i,
    {
        if i + 1 < f.len() && (f[i] as u32) < 0x80 && (f[i + 1] as u32) < 0x80 {
            let pair = [f[i], f[i + 1]];
            let ps: &[char] = &pair;
            assert(ps@ == seq![f@[i as int], f@[i + 1]]);
            match parse_unsigned_exec(ps, 0, 2, 16, 255) {
                Some(v) => {
                    proof {
                        lemma_pair_value_range(f@[i as int], f@[i + 1]);
                    }
                    out.push(v as u8);
                    proof {
                        match hex_pairs(f@, i + 2) {
                            Some(rest) => {
                                assert(out@ + rest =~= old_out_plus(out@, rest));
                            },
                            None => {},
                        }
                    }
                    i = i + 2;
                },
                None => {
                    return HexRead::Invalid;
                },
            }
        } else if (f[i] as u32) < 0x80 || utf8_len_exec(f[i]) > 2 {
            return HexRead::Split;
        } else {
            return HexRead::Invalid;
        }
    }
    assert(hex_pairs(f@, i as int) == Some(Seq::<u8>::empty()));
    assert(out@ + Seq::<u8>::empty() =~= out@);
    HexRead::Bytes(out)
}

spec fn old_out_plus(o: Seq<u8>, rest: Seq<u8>) -> Seq<u8> {
    o + rest
}

/// The address written in `s`: `0x` or `0X` and hex digits, or decimal
/// digits, with whitespace around; None if `s` is no address.
pub open spec fn address_value(s: Seq<char>) -> Option<nat> {
    let (a, b) = trimmed(s, 0, s.len() as int);
    if b - a >= 2 && s[a] == '0' && (s[a + 1] == 'x' || s[a + 1] == 'X') {
        parse_unsigned(s, a + 2, b, 16, usize::MAX as nat)
    } else {
        parse_unsigned(s, a, b, 10, usize::MAX as nat)
    }
}

/// Read an address.
pub fn parse_hex_usize(s: &[char]) -> (r: Option<usize>)
    ensures
        match address_value(s@) {
            Some(v) => r == Some(v as usize),
            None => r is None,
        },
{
    let (a, b) = trim(s, 0, s.len());
    let v = if b - a >= 2 && s[a] == '0' && (s[a + 1] == 'x' || s[a + 1] == 'X') {
        parse_unsigned_exec(s, a + 2, b, 16, usize::MAX as u64)
    } else {
        parse_unsigned_exec(s, a, b, 10, usize::MAX as u64)
    };
    match v {
        Some(x) => Some(x as usize),
        None => None,
    }
}

/// The code of `c` with an ASCII capital letter made small.
pub open spec fn ascii_lower(c: char) -> u32 {
    if 0x41 <= (c as u32) <= 0x5A {
        ((c as u32) + 32) as u32
    } else {
        c as u32
    }
}

/// `s[a..b]` is `w` up to the case of letters.
pub open spec fn lower_eq(s: Seq<char>, a: int, b: int, w: Seq<char>) -> bool {
    b - a == w.len() && forall|k: int| 0 <= k < w.len() ==> ascii_lower(#[trigger] s[a + k]) == w[k] as u32
}

/// `s` reads as true: `true`, `1` or `yes` in any case, with whitespace
/// around.
pub open spec fn truthy(s: Seq<char>) -> bool {
    let (a, b) = trimmed(s, 0, s.len() as int);
    lower_eq(s, a, b, seq!['t', 'r', 'u', 'e']) || lower_eq(s, a, b, seq!['1']) || lower_eq(
        s,
        a,
        b,
        seq!['y', 'e', 's'],
    )
}

fn lower_eq_exec(s: &[char], a: usize, b: usize, w: &[char]) -> (r: bool)
    requires
        a <= b <= s@.len(),
    ensures
        r == lower_eq(s@, a as int, b as int, w@),
{
    if b - a != w.len() {
        return false;
    }
    let mut k: usize = 0;
    while k < w.len()
        invariant
            a <= b <= s@.len(),
            b - a == w@.len(),
            0 <= k <= w@.len(),
            forall|t: int| 0 <= t < k ==> ascii_lower(#[trigger] s@[a + t]) == w@[t] as u32,
        decreases w@.len() - k,
    {
        let c = s[a + k];
        let u = c as u32;
        let lu: u32 = if 0x41 <= u && u <= 0x5A {
            u + 32
        } else {
            u
        };
        assert(ascii_lower(s@[a + k]) == lu);
        if lu != w[k] as u32 {
            return false;
        }
        k = k + 1;
    }
    true
}

/// Read a yes/no flag.
pub fn parse_bool(s: &[char]) -> (r: bool)
    ensures
        r == truthy(s@),
{
    let (a, b) = trim(s, 0, s.len());
    let t: [char; 4] = ['t', 'r', 'u', 'e'];
    let one: [char; 1] = ['1'];
    let y: [char; 3] = ['y', 'e', 's'];
    lower_eq_exec(s, a, b, &t) || lower_eq_exec(s, a, b, &one) || lower_eq_exec(s, a, b, &y)
}


// ---------------------------------------------------------------------------
// Definition documents.
// ---------------------------------------------------------------------------

/// The contents of a definition.
pub struct DefinitionView {
    pub id: Seq<char>,
    pub name: Seq<char>,
    pub marker: Seq<u8>,
    pub image_table_1: Range<usize>,
    pub image_table_2: Range<usize>,
    pub string_table_1: Range<usize>,
    pub string_table_2: Range<usize>,
    pub char_width: u8,
}

impl View for FirmwareDefinition {
    type V = DefinitionView;

    open spec fn view(&self) -> DefinitionView {
        DefinitionView {
            id: self.id@,
            name: self.name@,
            marker: self.marker@,
            image_table_1: self.image_table_1,
            image_table_2: self.image_table_2,
            string_table_1: self.string_table_1,
            string_table_2: self.string_table_2,
            char_width: self.char_width,
        }
    }
}

/// The views of a list of definitions.
pub open spec fn definition_views(defs: Seq<FirmwareDefinition>) -> Seq<DefinitionView> {
    defs.map_values(|d: FirmwareDefinition| d@)
}

/// A definition with nothing in it yet.
pub open spec fn empty_definition() -> DefinitionView {
    DefinitionView {
        id: seq![],
        name: seq![],
        marker: seq![],
        image_table_1: 0..0,
        image_table_2: 0..0,
        string_table_1: 0..0,
        string_table_2: 0..0,
        char_width: 1,
    }
}

/// `FirmwareDefinition`.
pub open spec fn w_firmware_definition() -> Seq<u8> {
    seq![70u8, 105, 114, 109, 119, 97, 114, 101, 68, 101, 102, 105, 110, 105, 116, 105, 111, 110]
}

/// `Definition`.
pub open spec fn w_definition() -> Seq<u8> {
    seq![68u8, 101, 102, 105, 110, 105, 116, 105, 111, 110]
}

/// `Marker`.
pub open spec fn w_marker() -> Seq<u8> {
    seq![77u8, 97, 114, 107, 101, 114]
}

/// `Bytes`.
pub open spec fn w_bytes() -> Seq<u8> {
    seq![66u8, 121, 116, 101, 115]
}

/// `ImageTable1`.
pub open spec fn w_image_table_1() -> Seq<u8> {
    seq![73u8, 109, 97, 103, 101, 84, 97, 98, 108, 101, 49]
}

/// `ImageTable2`.
pub open spec fn w_image_table_2() -> Seq<u8> {
    seq![73u8, 109, 97, 103, 101, 84, 97, 98, 108, 101, 50]
}

/// `StringTable1`.
pub open spec fn w_string_table_1() -> Seq<u8> {
    seq![83u8, 116, 114, 105, 110, 103, 84, 97, 98, 108, 101, 49]
}

/// `StringTable2`.
pub open spec fn w_string_table_2() -> Seq<u8> {
    seq![83u8, 116, 114, 105, 110, 103, 84, 97, 98, 108, 101, 50]
}

/// `TwoBytesPerChar`.
pub open spec fn w_two_bytes_per_char() -> Seq<u8> {
    seq![84u8, 119, 111, 66, 121, 116, 101, 115, 80, 101, 114, 67, 104, 97, 114]
}

/// `Name`.
pub open spec fn w_name() -> Seq<u8> {
    seq![78u8, 97, 109, 101]
}

/// `PtrFrom`.
pub open spec fn w_ptr_from() -> Seq<u8> {
    seq![80u8, 116, 114, 70, 114, 111, 109]
}

/// `From`.
pub open spec fn w_from() -> Seq<u8> {
    seq![70u8, 114, 111, 109]
}

/// `PtrTo`.
pub open spec fn w_ptr_to() -> Seq<u8> {
    seq![80u8, 116, 114, 84, 111]
}

/// `To`.
pub open spec fn w_to() -> Seq<u8> {
    seq![84u8, 111]
}


/// A tag that opens or closes a definition.
pub open spec fn is_definition_tag(n: Seq<u8>) -> bool {
    n == w_firmware_definition() || n == w_definition()
}

/// The id of a definition named `name`: small letters, spaces made dashes.
pub open spec fn id_of(name: Seq<char>) -> Seq<char> {
    lowercase(name).map_values(|c: char| if c == ' ' { '-' } else { c })
}

/// The definition a definition tag with `attrs` opens.
pub open spec fn opened_definition(attrs: Seq<XmlAttrView>) -> DefinitionView {
    match last_value(attrs, w_name()) {
        Some(n) => DefinitionView { id: id_of(n), name: n, ..empty_definition() },
        None => empty_definition(),
    }
}

/// Outcome of one step of reading a document.
pub enum Step<T> {
    Next(T),
    /// The document is refused (a malformed document or value).
    Refused,
    /// A marker text would be cut inside a character.
    Split,
}

/// The table range of `attrs` (last `PtrFrom`/`From`, last `PtrTo`/`To`),
/// with each of them read; None if one is no address.
pub open spec fn range_attrs(attrs: Seq<XmlAttrView>) -> Option<(nat, nat)>
    decreases attrs.len(),
{
    if attrs.len() == 0 {
        Some((0, 0))
    } else {
        match range_attrs(attrs.drop_last()) {
            None => None,
            Some((s, e)) => {
                let a = attrs.last();
                if a.key == w_ptr_from() || a.key == w_from() {
                    match address_value(a.value) {
                        Some(v) => Some((v, e)),
                        None => None,
                    }
                } else if a.key == w_ptr_to() || a.key == w_to() {
                    match address_value(a.value) {
                        Some(v) => Some((s, v)),
                        None => None,
                    }
                } else {
                    Some((s, e))
                }
            },
        }
    }
}

/// Some `TwoBytesPerChar` attribute of `attrs` reads as true.
pub open spec fn wide_chars(attrs: Seq<XmlAttrView>) -> bool {
    exists|k: int| 0 <= k < attrs.len() && attrs[k].key == w_two_bytes_per_char() && truthy(#[trigger] attrs[k].value)
}

/// The range a table tag gives.
pub open spec fn table_range(attrs: Seq<XmlAttrView>, bad_attr: bool) -> Option<Range<usize>> {
    if bad_attr {
        None
    } else {
        match range_attrs(attrs) {
            Some((s, e)) => Some((s as usize)..(e as usize)),
            None => None,
        }
    }
}

/// The definition `d` after a tag `name` with `attrs` inside it.
pub open spec fn apply_tag(d: DefinitionView, name: Seq<u8>, attrs: Seq<XmlAttrView>, bad_attr: bool) -> Step<DefinitionView> {
    if name == w_marker() {
        if bad_attr {
            Step::Refused
        } else {
            match last_value(attrs, w_bytes()) {
                Some(t) if t.len() > 0 => if hex_bytes_split(t) {
                    Step::Split
                } else {
                    match hex_bytes(t) {
                        Some(m) => Step::Next(DefinitionView { marker: m, ..d }),
                        None => Step::Refused,
                    }
                },
                _ => Step::Next(d),
            }
        }
    } else if name == w_image_table_1() {
        match table_range(attrs, bad_attr) {
            Some(r) => Step::Next(DefinitionView { image_table_1: r, ..d }),
            None => Step::Refused,
        }
    } else if name == w_image_table_2() {
        match table_range(attrs, bad_attr) {
            Some(r) => Step::Next(DefinitionView { image_table_2: r, ..d }),
            None => Step::Refused,
        }
    } else if name == w_string_table_1() {
        match table_range(attrs, bad_attr) {
            Some(r) => Step::Next(
                DefinitionView {
                    string_table_1: r,
                    char_width: if wide_chars(attrs) { 2 } else { d.char_width },
                    ..d
                },
            ),
            None => Step::Refused,
        }
    } else if name == w_string_table_2() {
        match table_range(attrs, bad_attr) {
            Some(r) => Step::Next(DefinitionView { string_table_2: r, ..d }),
            None => Step::Refused,
        }
    } else {
        Step::Next(d)
    }
}

/// The definitions read from the events `evs`, given those read so far and
/// the one open, if any.
pub open spec fn scan_definitions(
    evs: Seq<XmlEventView>,
    defs: Seq<DefinitionView>,
    cur: Option<DefinitionView>,
) -> Step<Seq<DefinitionView>>
    decreases evs.len(),
{
    if evs.len() == 0 {
        Step::Next(defs)
    } else {
        let rest = evs.drop_first();
        match evs[0] {
            XmlEventView::Eof => Step::Next(defs),
            XmlEventView::Malformed => Step::Refused,
            XmlEventView::Open { name, attrs, bad_attr, empty: _ } => if is_definition_tag(name) {
                if bad_attr {
                    Step::Refused
                } else {
                    scan_definitions(rest, defs, Some(opened_definition(attrs)))
                }
            } else {
                match cur {
                    None => scan_definitions(rest, defs, cur),
                    Some(d) => match apply_tag(d, name, attrs, bad_attr) {
                        Step::Next(d2) => scan_definitions(rest, defs, Some(d2)),
                        Step::Refused => Step::Refused,
                        Step::Split => Step::Split,
                    },
                }
            },
            XmlEventView::Close { name } => if is_definition_tag(name) && cur is Some {
                scan_definitions(rest, defs.push(cur->0), None)
            } else {
                scan_definitions(rest, defs, cur)
            },
            _ => scan_definitions(rest, defs, cur),
        }
    }
}

/// The definitions a definition document's events give.
pub open spec fn definitions_of(evs: Seq<XmlEventView>) -> Step<Seq<DefinitionView>> {
    scan_definitions(evs, seq![], None)
}

// ---------------------------------------------------------------------------

fn is_firmware_definition(b: &[u8]) -> (r: bool)
    ensures
        r == (b@ == w_firmware_definition()),
{
    let w: [u8; 18] = [70, 105, 114, 109, 119, 97, 114, 101, 68, 101, 102, 105, 110, 105, 116, 105, 111, 110];
    bytes_eq(b, &w)
}

fn is_definition(b: &[u8]) -> (r: bool)
    ensures
        r == (b@ == w_definition()),
{
    let w: [u8; 10] = [68, 101, 102, 105, 110, 105, 116, 105, 111, 110];
    bytes_eq(b, &w)
}

fn is_marker(b: &[u8]) -> (r: bool)
    ensures
        r == (b@ == w_marker()),
{
    let w: [u8; 6] = [77, 97, 114, 107, 101, 114];
    bytes_eq(b, &w)
}

fn is_bytes(b: &[u8]) -> (r: bool)
    ensures
        r == (b@ == w_bytes()),
{
    let w: [u8; 5] = [66, 121, 116, 101, 115];
    bytes_eq(b, &w)
}

fn is_image_table_1(b: &[u8]) -> (r: bool)
    ensures
        r == (b@ == w_image_table_1()),
{
    let w: [u8; 11] = [73, 109, 97, 103, 101, 84, 97, 98, 108, 101, 49];
    bytes_eq(b, &w)
}

fn is_image_table_2(b: &[u8]) -> (r: bool)
    ensures
        r == (b@ == w_image_table_2()),
{
    let w: [u8; 11] = [73, 109, 97, 103, 101, 84, 97, 98, 108, 101, 50];
    bytes_eq(b, &w)
}

fn is_string_table_1(b: &[u8]) -> (r: bool)
    ensures
        r == (b@ == w_string_table_1()),
{
    let w: [u8; 12] = [83, 116, 114, 105, 110, 103, 84, 97, 98, 108, 101, 49];
    bytes_eq(b, &w)
}

fn is_string_table_2(b: &[u8]) -> (r: bool)
    ensures
        r == (b@ == w_string_table_2()),
{
    let w: [u8; 12] = [83, 116, 114, 105, 110, 103, 84, 97, 98, 108, 101, 50];
    bytes_eq(b, &w)
}

fn is_two_bytes_per_char(b: &[u8]) -> (r: bool)
    ensures
        r == (b@ == w_two_bytes_per_char()),
{
    let w: [u8; 15] = [84, 119, 111, 66, 121, 116, 101, 115, 80, 101, 114, 67, 104, 97, 114];
    bytes_eq(b, &w)
}

fn is_name(b: &[u8]) -> (r: bool)
    ensures
        r == (b@ == w_name()),
{
    let w: [u8; 4] = [78, 97, 109, 101];
    bytes_eq(b, &w)
}

fn is_ptr_from(b: &[u8]) -> (r: bool)
    ensures
        r == (b@ == w_ptr_from()),
{
    let w: [u8; 7] = [80, 116, 114, 70, 114, 111, 109];
    bytes_eq(b, &w)
}

fn is_from(b: &[u8]) -> (r: bool)
    ensures
        r == (b@ == w_from()),
{
    let w: [u8; 4] = [70, 114, 111, 109];
    bytes_eq(b, &w)
}

fn is_ptr_to(b: &[u8]) -> (r: bool)
    ensures
        r == (b@ == w_ptr_to()),
{
    let w: [u8; 5] = [80, 116, 114, 84, 111];
    bytes_eq(b, &w)
}

fn is_to(b: &[u8]) -> (r: bool)
    ensures
        r == (b@ == w_to()),
{
    let w: [u8; 2] = [84, 111];
    bytes_eq(b, &w)
}


fn definition_named(attrs: &[XmlAttr]) -> (d: FirmwareDefinition)
    ensures
        d@ == opened_definition(attr_views(attrs@)),
{
    let mut d = FirmwareDefinition::default();
    let key: [u8; 4] = [78, 97, 109, 101];
    match find_last(attrs, &key) {
        Some(n) => {
            let low = lowercase_string(n.as_str());
            let cs = chars_of(low.as_str());
            let mut id: Vec<char> = Vec::new();
            let mut i: usize = 0;
            while i < cs.len()
                invariant
                    0 <= i <= cs@.len(),
                    id@ == cs@.subrange(0, i as int).map_values(|c: char| if c == ' ' { '-' } else { c }),
                decreases cs@.len() - i,
            {
                let c = if cs[i] == ' ' {
                    '-'
                } else {
                    cs[i]
                };
                id.push(c);
                assert(id@ =~= cs@.subrange(0, i + 1).map_values(|c: char| if c == ' ' { '-' } else { c }));
                i = i + 1;
            }
            assert(cs@.subrange(0, cs@.len() as int) =~= cs@);
            d.id = string_from_chars(id.as_slice());
            d.name = n.clone();
            assert(d.id@ =~= id_of(n@));
        },
        None => {
            assert(d.id@ =~= Seq::<char>::empty());
            assert(d.name@ =~= Seq::<char>::empty());
        },
    }
    assert(d.marker@ =~= Seq::<u8>::empty());
    assert(d@ =~= opened_definition(attr_views(attrs@)));
    d
}

fn range_of_attrs(attrs: &[XmlAttr]) -> (r: Option<(usize, usize)>)
    ensures
        match range_attrs(attr_views(attrs@)) {
            Some((s, e)) => r == Some((s as usize, e as usize)) && s <= usize::MAX && e <= usize::MAX,
            None => r is None,
        },
{
    let mut start: usize = 0;
    let mut end: usize = 0;
    let mut i: usize = 0;
    while i < attrs.len()
        invariant
            0 <= i <= attrs@.len(),
            range_attrs(attr_views(attrs@.subrange(0, i as int))) == Some((start as nat, end as nat)),
        decreases attrs@.len() - i,
    {
        assert(attr_views(attrs@.subrange(0, i + 1)).drop_last() =~= attr_views(attrs@.subrange(0, i as int)));
        let a = &attrs[i];
        let k = a.key.as_slice();
        if is_ptr_from(k) || is_from(k) {
            let cs = chars_of(a.value.as_str());
            match parse_hex_usize(cs.as_slice()) {
                Some(v) => {
                    start = v;
                },
                None => {
                    proof { lemma_range_attrs_none(attr_views(attrs@), i as int); }
                    return None;
                },
            }
        } else if is_ptr_to(k) || is_to(k) {
            let cs = chars_of(a.value.as_str());
            match parse_hex_usize(cs.as_slice()) {
                Some(v) => {
                    end = v;
                },
                None => {
                    proof { lemma_range_attrs_none(attr_views(attrs@), i as int); }
                    return None;
                },
            }
        }
        i = i + 1;
    }
    assert(attrs@.subrange(0, attrs@.len() as int) =~= attrs@);
    Some((start, end))
}

proof fn lemma_range_attrs_none(attrs: Seq<XmlAttrView>, i: int)
    requires
        0 <= i < attrs.len(),
        range_attrs(attrs.subrange(0, i + 1)) is None,
    ensures
        range_attrs(attrs) is None,
    decreases attrs.len() - i,
{
    if i + 1 < attrs.len() {
        assert(attrs.subrange(0, i + 2).drop_last() =~= attrs.subrange(0, i + 1));
        lemma_range_attrs_none(attrs, i + 1);
    } else {
        assert(attrs.subrange(0, i + 1) =~= attrs);
    }
}

fn any_wide(attrs: &[XmlAttr]) -> (r: bool)
    ensures
        r == wide_chars(attr_views(attrs@)),
{
    let mut i: usize = 0;
    while i < attrs.len()
        invariant
            0 <= i <= attrs@.len(),
            forall|k: int| 0 <= k < i ==> !(attr_views(attrs@)[k].key == w_two_bytes_per_char() && truthy(#[trigger] attr_views(attrs@)[k].value)),
        decreases attrs@.len() - i,
    {
        if is_two_bytes_per_char(attrs[i].key.as_slice()) {
            let cs = chars_of(attrs[i].value.as_str());
            if parse_bool(cs.as_slice()) {
                assert(attr_views(attrs@)[i as int].key == w_two_bytes_per_char() && truthy(attr_views(attrs@)[i as int].value));
                return true;
            }
        }
        i = i + 1;
    }
    false
}

fn table_range_exec(attrs: &[XmlAttr], bad_attr: bool) -> (r: Option<Range<usize>>)
    ensures
        r == table_range(attr_views(attrs@), bad_attr),
{
    if bad_attr {
        return None;
    }
    match range_of_attrs(attrs) {
        Some((s, e)) => Some(s..e),
        None => None,
    }
}

/// Exec counterpart of `Step`.
enum Applied {
    Next(FirmwareDefinition),
    Refused,
    Split,
}

fn apply_tag_exec(d: FirmwareDefinition, name: &[u8], attrs: &[XmlAttr], bad_attr: bool) -> (r: Applied)
    ensures
        match apply_tag(d@, name@, attr_views(attrs@), bad_attr) {
            Step::Next(v) => r matches Applied::Next(d2) && d2@ == v,
            Step::Refused => r is Refused,
            Step::Split => r is Split,
        },
{
    let mut d = d;
    if is_marker(name) {
        if bad_attr {
            return Applied::Refused;
        }
        let key: [u8; 5] = [66, 121, 116, 101, 115];
        match find_last(attrs, &key) {
            Some(t) => {
                let cs = chars_of(t.as_str());
                if cs.len() > 0 {
                    match hex_to_bytes(cs.as_slice()) {
                        HexRead::Bytes(m) => {
                            d.marker = m;
                            return Applied::Next(d);
                        },
                        HexRead::Invalid => {
                            return Applied::Refused;
                        },
                        HexRead::Split => {
                            return Applied::Split;
                        },
                    }
                }
                Applied::Next(d)
            },
            None => Applied::Next(d),
        }
    } else if is_image_table_1(name) {
        match table_range_exec(attrs, bad_attr) {
            Some(r) => {
                d.image_table_1 = r;
                Applied::Next(d)
            },
            None => Applied::Refused,
        }
    } else if is_image_table_2(name) {
        match table_range_exec(attrs, bad_attr) {
            Some(r) => {
                d.image_table_2 = r;
                Applied::Next(d)
            },
            None => Applied::Refused,
        }
    } else if is_string_table_1(name) {
        match table_range_exec(attrs, bad_attr) {
            Some(r) => {
                d.string_table_1 = r;
                if any_wide(attrs) {
                    d.char_width = 2;
                }
                Applied::Next(d)
            },
            None => Applied::Refused,
        }
    } else if is_string_table_2(name) {
        match table_range_exec(attrs, bad_attr) {
            Some(r) => {
                d.string_table_2 = r;
                Applied::Next(d)
            },
            None => Applied::Refused,
        }
    } else {
        Applied::Next(d)
    }
}

/// Exec counterpart of `Step` for whole documents.
enum Scanned {
    Done(Vec<FirmwareDefinition>),
    Refused,
    Split,
}

fn scan_definitions_exec(evs: &[XmlEvent]) -> (r: Scanned)
    ensures
        match definitions_of(views(evs@)) {
            Step::Next(ds) => r matches Scanned::Done(v) && definition_views(v@) == ds,
            Step::Refused => r is Refused,
            Step::Split => r is Split,
        },
{
    let mut defs: Vec<FirmwareDefinition> = Vec::new();
    let mut cur: Option<FirmwareDefinition> = None;
    let mut i: usize = 0;
    let ghost all = views(evs@);
    assert(all.subrange(0, all.len() as int) =~= all);
    assert(definition_views(defs@) =~= Seq::<DefinitionView>::empty());
    while i < evs.len()
        invariant
            0 <= i <= evs@.len(),
            all == views(evs@),
            definitions_of(all) == scan_definitions(
                all.subrange(i as int, all.len() as int),
                definition_views(defs@),
                match cur { Some(d) => Some(d@), None => None },
            ),
        decreases evs@.len() - i,
    {
        let ghost rest = all.subrange(i as int, all.len() as int);
        assert(rest.drop_first() =~= all.subrange(i + 1, all.len() as int));
        assert(rest[0] == evs@[i as int]@);
        match &evs[i] {
            XmlEvent::Eof => {
                return Scanned::Done(defs);
            },
            XmlEvent::Malformed => {
                return Scanned::Refused;
            },
            XmlEvent::Open { name, attrs, bad_attr, empty: _ } => {
                if is_firmware_definition(name.as_slice()) || is_definition(name.as_slice()) {
                    if *bad_attr {
                        return Scanned::Refused;
                    }
                    cur = Some(definition_named(attrs.as_slice()));
                } else {
                    match cur {
                        None => {},
                        Some(d) => {
                            match apply_tag_exec(d, name.as_slice(), attrs.as_slice(), *bad_attr) {
                                Applied::Next(d2) => {
                                    cur = Some(d2);
                                },
                                Applied::Refused => {
                                    return Scanned::Refused;
                                },
                                Applied::Split => {
                                    return Scanned::Split;
                                },
                            }
                        },
                    }
                }
            },
            XmlEvent::Close { name } => {
                if is_firmware_definition(name.as_slice()) || is_definition(name.as_slice()) {
                    match cur {
                        Some(d) => {
                            let ghost before = definition_views(defs@);
                            let ghost dv = d@;
                            defs.push(d);
                            assert(definition_views(defs@) =~= before.push(dv));
                            cur = None;
                        },
                        None => {},
                    }
                }
            },
            _ => {},
        }
        i = i + 1;
    }
    Scanned::Done(defs)
}

/// The definitions that the events of a definition document give. A `Marker`
/// whose text `str` slicing would cut inside a character is excluded.
pub fn definitions_from_events(evs: &[XmlEvent]) -> (r: Result<Vec<FirmwareDefinition>, FirmwareError>)
    requires
        !(definitions_of(views(evs@)) is Split),
    ensures
        match definitions_of(views(evs@)) {
            Step::Next(ds) => r matches Ok(v) && definition_views(v@) == ds,
            _ => r matches Err(FirmwareError::Xml(_)),
        },
{
    match scan_definitions_exec(evs) {
        Scanned::Done(v) => Ok(v),
        _ => Err(FirmwareError::Xml("malformed definition document".to_owned())),
    }
}

/// Parse a definition document (`<FirmwareDefinition Name="..">` elements
/// with `Marker`, `ImageTable1/2` and `StringTable1/2` tags). A document whose
/// marker text would be cut inside a character is refused too.
pub fn parse_definition(xml: &str) -> (r: Result<Vec<FirmwareDefinition>, FirmwareError>)
    ensures
        match definitions_of(document_events(xml@)) {
            Step::Next(ds) => r matches Ok(v) && definition_views(v@) == ds,
            _ => r matches Err(FirmwareError::Xml(_)),
        },
{
    let evs = xml_events(xml);
    match scan_definitions_exec(evs.as_slice()) {
        Scanned::Split => Err(FirmwareError::Xml("marker text cut inside a character".to_owned())),
        _ => definitions_from_events(evs.as_slice()),
    }
}

} // verus!
