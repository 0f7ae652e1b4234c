//! Character-level text handling for definition, patch and resource-pack
//! documents: whitespace trimming and unsigned number parsing as `str::trim`
//! and `from_str_radix` do them.

use vstd::prelude::*;

verus! {

/// `c` has the Unicode White_Space property, which is what
/// `char::is_whitespace` tests.
pub open spec fn is_white(c: char) -> bool {
    let u = c as u32;
    ||| 0x09 <= u <= 0x0D
    ||| u == 0x20
    ||| u == 0x85
    ||| u == 0xA0
    ||| u == 0x1680
    ||| 0x2000 <= u <= 0x200A
    ||| u == 0x2028
    ||| u == 0x2029
    ||| u == 0x202F
    ||| u == 0x205F
    ||| u == 0x3000
}

/// Whether `c` is whitespace.
pub fn white(c: char) -> (r: bool)
    ensures
        r == is_white(c),
{
    let u = c as u32;
    (0x09 <= u && u <= 0x0D) || u == 0x20 || u == 0x85 || u == 0xA0 || u == 0x1680 || (0x2000
        <= u && u <= 0x200A) || u == 0x2028 || u == 0x2029 || u == 0x202F || u == 0x205F || u
        == 0x3000
}

/// The characters of `s`, in order.
pub fn chars_of(s: &str) -> (v: Vec<char>)
    ensures
        v@ == s@,
{
    let n = s.unicode_len();
    let mut v: Vec<char> = Vec::new();
    let mut i: usize = 0;
    while i < n
        invariant
            n == s@.len(),
            0 <= i <= n,
            v@ == s@.subrange(0, i as int),
        decreases n - i,
    {
        v.push(s.get_char(i));
        assert(v@ =~= s@.subrange(0, i + 1));
        i = i + 1;
    }
    assert(v@ =~= s@);
    v
}

/// First position in `lo..hi` that holds no whitespace, or `hi`.
pub open spec fn skip_white(s: Seq<char>, lo: int, hi: int) -> int
    decreases hi - lo,
{
    if lo < hi && is_white(s[lo]) {
        skip_white(s, lo + 1, hi)
    } else {
        lo
    }
}

/// End of `lo..hi` with trailing whitespace removed.
pub open spec fn back_white(s: Seq<char>, lo: int, hi: int) -> int
    decreases hi - lo,
{
    if lo < hi && is_white(s[hi - 1]) {
        back_white(s, lo, hi - 1)
    } else {
        hi
    }
}

proof fn lemma_skip_white_bounds(s: Seq<char>, lo: int, hi: int)
    requires
        lo <= hi,
    ensures
        lo <= skip_white(s, lo, hi) <= hi,
    decreases hi - lo,
{
    if lo < hi && is_white(s[lo]) {
        lemma_skip_white_bounds(s, lo + 1, hi);
    }
}

proof fn lemma_back_white_bounds(s: Seq<char>, lo: int, hi: int)
    requires
        lo <= hi,
    ensures
        lo <= back_white(s, lo, hi) <= hi,
    decreases hi - lo,
{
    if lo < hi && is_white(s[hi - 1]) {
        lemma_back_white_bounds(s, lo, hi - 1);
    }
}

/// The bounds of `s[lo..hi]` with leading and trailing whitespace removed.
pub open spec fn trimmed(s: Seq<char>, lo: int, hi: int) -> (int, int) {
    let a = skip_white(s, lo, hi);
    (a, back_white(s, a, hi))
}

/// Trim whitespace off both ends of `s[lo..hi]`.
pub fn trim(s: &[char], lo: usize, hi: usize) -> (r: (usize, usize))
    requires
        lo <= hi <= s@.len(),
    ensures
        (r.0 as int, r.1 as int) == trimmed(s@, lo as int, hi as int),
        lo <= r.0 <= r.1 <= hi,
{
    let mut a = lo;
    while a < hi && white(s[a])
        invariant
            lo <= a <= hi <= s@.len(),
            skip_white(s@, lo as int, hi as int) == skip_white(s@, a as int, hi as int),
        decreases hi - a,
    {
        a = a + 1;
    }
    let mut b = hi;
    while a < b && white(s[b - 1])
        invariant
            lo <= a <= b <= hi <= s@.len(),
            skip_white(s@, lo as int, hi as int) == a,
            back_white(s@, a as int, hi as int) == back_white(s@, a as int, b as int),
        decreases b - a,
    {
        b = b - 1;
    }
    (a, b)
}

/// Value of `c` as a digit in `radix` (2 to 36), if it is one.
pub open spec fn digit_value(c: char, radix: nat) -> Option<nat> {
    let u = c as u32;
    let d: int = if 0x30 <= u <= 0x39 {
        u - 0x30
    } else if 0x61 <= u <= 0x7A {
        u - 0x61 + 10
    } else if 0x41 <= u <= 0x5A {
        u - 0x41 + 10
    } else {
        radix as int
    };
    if d < radix {
        Some(d as nat)
    } else {
        None
    }
}

/// Value of the digits `s[lo..hi]` in `radix`; None if one is no digit.
pub open spec fn digits_value(s: Seq<char>, lo: int, hi: int, radix: nat) -> Option<nat>
    decreases hi - lo,
{
    if hi <= lo {
        Some(0)
    } else {
        match (digits_value(s, lo, hi - 1, radix), digit_value(s[hi - 1], radix)) {
            (Some(v), Some(d)) => Some(v * radix + d),
            _ => None,
        }
    }
}

/// What `from_str_radix` gives for `s[lo..hi]` in an unsigned type whose
/// largest value is `max`: one optional `+`, then at least one digit, and
/// a value that fits.
pub open spec fn parse_unsigned(s: Seq<char>, lo: int, hi: int, radix: nat, max: nat) -> Option<nat> {
    if hi <= lo {
        None
    } else {
        let start = if s[lo] == '+' {
            lo + 1
        } else {
            lo
        };
        if start >= hi {
            None
        } else {
            match digits_value(s, start, hi, radix) {
                Some(v) => if v <= max {
                    Some(v)
                } else {
                    None
                },
                None => None,
            }
        }
    }
}

proof fn lemma_digits_grow(s: Seq<char>, lo: int, hi: int, radix: nat)
    requires
        lo <= hi,
        2 <= radix,
        digits_value(s, lo, hi, radix) is Some,
    ensures
        forall|k: int|
            lo <= k <= hi ==> (digits_value(s, lo, k, radix) is Some && digits_value(s, lo, k, radix)->0 <= digits_value(s, lo, hi, radix)->0),
    decreases hi - lo,
{
    if lo < hi {
        lemma_digits_grow(s, lo, hi - 1, radix);
        let v = digits_value(s, lo, hi - 1, radix)->0;
        assert(v <= v * radix) by (nonlinear_arith)
            requires
                2 <= radix,
        ;
    }
}

fn digit(c: char, radix: u32) -> (r: Option<u32>)
    requires
        2 <= radix <= 36,
    ensures
        match digit_value(c, radix as nat) {
            Some(d) => r == Some(d as u32),
            None => r is None,
        },
{
    let u = c as u32;
    let d: u32 = if 0x30 <= u && u <= 0x39 {
        u - 0x30
    } else if 0x61 <= u && u <= 0x7A {
        u - 0x61 + 10
    } else if 0x41 <= u && u <= 0x5A {
        u - 0x41 + 10
    } else {
        radix
    };
    if d < radix {
        Some(d)
    } else {
        None
    }
}

/// Parse `s[lo..hi]` as `from_str_radix` does for an unsigned type whose
/// largest value is `max`.
pub fn parse_unsigned_exec(s: &[char], lo: usize, hi: usize, radix: u32, max: u64) -> (r: Option<u64>)
    requires
        lo <= hi <= s@.len(),
        2 <= radix <= 36,
    ensures
        match parse_unsigned(s@, lo as int, hi as int, radix as nat, max as nat) {
            Some(v) => r == Some(v as u64),
            None => r is None,
        },
{
    if hi <= lo {
        return None;
    }
    let start = if s[lo] == '+' {
        lo + 1
    } else {
        lo
    };
    if start >= hi {
        return None;
    }
    let mut v: u64 = 0;
    let mut k = start;
    while k < hi
        invariant
            start <= k <= hi <= s@.len(),
            lo < hi,
            start < hi,
            start == (if s@[lo as int] == '+' { lo + 1 } else { lo as int }),
            2 <= radix <= 36,
            digits_value(s@, start as int, k as int, radix as nat) == Some(v as nat),
            v <= max,
        decreases hi - k,
    {
        match digit(s[k], radix) {
            Some(d) => {
                // v * radix + d must stay within max.
                if d as u64 > max || v > (max - d as u64) / (radix as u64) {
                    proof {
                        let nv = v * radix + d;
                        if d <= max {
                            assert(nv > max) by (nonlinear_arith)
                                requires
                                    v > (max - d) / (radix as int),
                                    d <= max,
                                    2 <= radix,
                                    nv == v * radix + d,
                            ;
                        } else {
                            assert(nv > max) by (nonlinear_arith)
                                requires
                                    d > max,
                                    v >= 0,
                                    2 <= radix,
                                    nv == v * radix + d,
                            ;
                        }
                        assert(digits_value(s@, start as int, k + 1, radix as nat) == Some(nv as nat));
                        if digits_value(s@, start as int, hi as int, radix as nat) is Some {
                            lemma_digits_grow(s@, start as int, hi as int, radix as nat);
                            assert(digits_value(s@, start as int, k + 1, radix as nat)->0 <= digits_value(s@, start as int, hi as int, radix as nat)->0);
                        }
                    }
                    return None;
                }
                proof {
                    assert(v * radix + d <= max) by (nonlinear_arith)
                        requires
                            v <= (max - d) / (radix as int),
                            d < radix,
                            2 <= radix,
                            d <= max,
                    ;
                }
                v = v * (radix as u64) + d as u64;
                k = k + 1;
            },
            None => {
                proof {
                    assert(digits_value(s@, start as int, k + 1, radix as nat) is None);
                    if digits_value(s@, start as int, hi as int, radix as nat) is Some {
                        lemma_digits_grow(s@, start as int, hi as int, radix as nat);
                    }
                }
                return None;
            },
        }
    }
    Some(v)
}

/// First position in `a..b` holding `c`, or `b`.
pub open spec fn find_char(s: Seq<char>, a: int, b: int, c: char) -> int
    decreases b - a,
{
    if a >= b {
        b
    } else if s[a] == c {
        a
    } else {
        find_char(s, a + 1, b, c)
    }
}

pub proof fn lemma_find_char_bounds(s: Seq<char>, a: int, b: int, c: char)
    requires
        a <= b,
    ensures
        a <= find_char(s, a, b, c) <= b,
        find_char(s, a, b, c) < b ==> s[find_char(s, a, b, c)] == c,
    decreases b - a,
{
    if a < b && s[a] != c {
        lemma_find_char_bounds(s, a + 1, b, c);
    }
}

/// First position in `a..b` holding `c`, or `b`.
pub fn find_char_exec(s: &[char], a: usize, b: usize, c: char) -> (r: usize)
    requires
        a <= b <= s@.len(),
    ensures
        r == find_char(s@, a as int, b as int, c),
        a <= r <= b,
{
    let mut k = a;
    while k < b && s[k] != c
        invariant
            a <= k <= b <= s@.len(),
            find_char(s@, a as int, b as int, c) == find_char(s@, k as int, b as int, c),
        decreases b - k,
    {
        k = k + 1;
    }
    k
}

/// The string of the characters `cs` (`String: FromIterator<char>`).
#[verifier::external_body]
pub fn string_from_chars(cs: &[char]) -> (s: String)
    ensures
        s@ == cs@,
{
    cs.iter().collect()
}

/// What `str::to_lowercase` gives for `s`.
pub uninterp spec fn lowercase(s: Seq<char>) -> Seq<char>;

/// `str::to_lowercase`. Its contract is the name of its result.
#[verifier::external_body]
pub fn lowercase_string(s: &str) -> (r: String)
    ensures
        r@ == lowercase(s@),
{
    s.to_lowercase()
}

/// The hex digit `d` (0 to 15), small letters.
pub open spec fn hex_digit(d: int) -> char {
    seq!['0', '1', '2', '3', '4', '5', '6', '7', '8', '9', 'a', 'b', 'c', 'd', 'e', 'f'][d]
}

/// `n` in decimal.
pub open spec fn dec_text(n: nat) -> Seq<char>
    decreases n,
{
    if n < 10 {
        seq![hex_digit(n as int)]
    } else {
        dec_text(n / 10) + seq![hex_digit((n % 10) as int)]
    }
}

/// `out` with `cs` appended.
pub fn push_all(out: &mut Vec<char>, cs: &[char])
    ensures
        final(out)@ == old(out)@ + cs@,
{
    let mut i: usize = 0;
    while i < cs.len()
        invariant
            0 <= i <= cs@.len(),
            out@ == old(out)@ + cs@.subrange(0, i as int),
        decreases cs@.len() - i,
    {
        out.push(cs[i]);
        assert(out@ =~= old(out)@ + cs@.subrange(0, i + 1));
        i = i + 1;
    }
    assert(cs@.subrange(0, cs@.len() as int) =~= cs@);
}

/// The digit `d` as a character.
pub fn hex_digit_exec(d: u32) -> (c: char)
    requires
        d < 16,
    ensures
        c == hex_digit(d as int),
{
    let t: [char; 16] = ['0', '1', '2', '3', '4', '5', '6', '7', '8', '9', 'a', 'b', 'c', 'd', 'e', 'f'];
    assert(t@ == seq!['0', '1', '2', '3', '4', '5', '6', '7', '8', '9', 'a', 'b', 'c', 'd', 'e', 'f']);
    t[d as usize]
}

/// `out` with the characters of `s` appended.
pub fn push_text(out: &mut Vec<char>, s: &str)
    ensures
        final(out)@ == old(out)@ + s@,
{
    let cs = chars_of(s);
    push_all(out, cs.as_slice());
}

/// `out` with `v` in decimal appended.
pub fn push_dec(out: &mut Vec<char>, v: u128)
    ensures
        final(out)@ == old(out)@ + dec_text(v as nat),
    decreases v,
{
    if v >= 10 {
        push_dec(out, v / 10);
    }
    out.push(hex_digit_exec((v % 10) as u32));
    assert(out@ =~= old(out)@ + dec_text(v as nat));
}


/// `n` in hex, small letters, no leading zeros (as `{:x}` prints it).
pub open spec fn hex_text(n: nat) -> Seq<char>
    decreases n,
{
    if n < 16 {
        seq![hex_digit(n as int)]
    } else {
        hex_text(n / 16) + seq![hex_digit((n % 16) as int)]
    }
}

/// `out` with `v` in hex, no leading zeros, appended.
pub fn push_hex_digits(out: &mut Vec<char>, v: u128)
    ensures
        final(out)@ == old(out)@ + hex_text(v as nat),
    decreases v,
{
    if v >= 16 {
        push_hex_digits(out, v / 16);
    }
    out.push(hex_digit_exec((v % 16) as u32));
    assert(out@ =~= old(out)@ + hex_text(v as nat));
}

/// What `String::from_utf8_lossy` gives for `b`.
pub uninterp spec fn utf8_lossy(b: Seq<u8>) -> Seq<char>;

/// `String::from_utf8_lossy`, owned. Its contract is the name of its result.
#[verifier::external_body]
pub fn utf8_lossy_string(b: &[u8]) -> (s: String)
    ensures
        s@ == utf8_lossy(b@),
{
    String::from_utf8_lossy(b).into_owned()
}

/// `String::from_utf8`, its error dropped: the text `b` encodes when `b` is
/// well-formed UTF-8 (no overlong forms, no surrogates, nothing past
/// U+10FFFF), else None.
#[verifier::external_body]
pub fn utf8_string(b: Vec<u8>) -> (r: Option<String>)
    ensures
        match r {
            Some(s) => vstd::utf8::valid_utf8(b@) && s@ == vstd::utf8::decode_utf8(b@),
            None => !vstd::utf8::valid_utf8(b@),
        },
{
    String::from_utf8(b).ok()
}

/// Whether `a` and `b` hold the same characters.
pub fn chars_eq(a: &[char], b: &[char]) -> (r: bool)
    ensures
        r == (a@ == b@),
{
    if a.len() != b.len() {
        return false;
    }
    let mut i: usize = 0;
    while i < a.len()
        invariant
            0 <= i <= a@.len(),
            a@.len() == b@.len(),
            forall|k: int| 0 <= k < i ==> a@[k] == b@[k],
        decreases a@.len() - i,
    {
        if a[i] != b[i] {
            return false;
        }
        i = i + 1;
    }
    assert(a@ =~= b@);
    true
}

} // verus!
