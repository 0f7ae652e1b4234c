//! Firmware encryption schemes: Joyetech XOR, ArcticFox (XOR with a table
//! from the .NET `System.Random` generator) and its second variant, and the
//! marker-based detection of which one an image uses.

use crate::firmware::error::FirmwareError;
use crate::firmware::vandalproof::{decrypt_vandalproof, encrypt_vandalproof, lemma_vp_roundtrip, vp_decrypt, vp_encrypt};
use vstd::prelude::*;

verus! {

/// Recognised firmware encryption schemes.
#[derive(Debug, Clone, Copy, PartialEq, Eq, Structural)]
pub enum EncryptionType {
    /// Plaintext / no encryption.
    Plaintext,
    /// Joyetech XOR obfuscation derived from file size.
    Joyetech,
    /// ArcticFox encryption (key key 0x17, table length 9).
    ArcticFox,
    /// ArcticFox encryption variant (key key 0x19, table length 11).
    ArcticFox2,
    /// VandalProof: AES-128-CBC update packages.
    VandalProof,
}

/// Minimum buffer length considered for Joyetech-encrypted firmware.
pub const JOYETECH_MIN_LEN: usize = 8;

pub const JOYETECH_MAGIC: i32 = 0x63B38;

pub const ARCTICFOX_KEY_KEY: u8 = 0x17;

pub const ARCTICFOX_TABLE_LEN: usize = 9;

pub const ARCTICFOX2_KEY_KEY: u8 = 0x19;

pub const ARCTICFOX2_TABLE_LEN: usize = 11;

/// `Joyetech APROM`, present in every decrypted Joyetech-derived image.
pub open spec fn marker() -> Seq<u8> {
    seq![0x4Au8, 0x6F, 0x79, 0x65, 0x74, 0x65, 0x63, 0x68, 0x20, 0x41, 0x50, 0x52, 0x4F, 0x4D]
}

/// The marker occurs somewhere in `d`.
pub open spec fn has_marker(d: Seq<u8>) -> bool {
    exists|i: int| 0 <= i && i + 14 <= d.len() && #[trigger] d.subrange(i, i + 14) == marker()
}

fn marker_bytes() -> (m: [u8; 14])
    ensures
        m@ == marker(),
{
    let m: [u8; 14] = [0x4A, 0x6F, 0x79, 0x65, 0x74, 0x65, 0x63, 0x68, 0x20, 0x41, 0x50, 0x52, 0x4F, 0x4D];
    assert(m@ =~= marker());
    m
}

/// Whether `data` holds the firmware marker.
pub fn contains_marker(data: &[u8]) -> (r: bool)
    ensures
        r == has_marker(data@),
{
    let m = marker_bytes();
    let n = data.len();
    if n < 14 {
        assert forall|i: int| 0 <= i && i + 14 <= data@.len() implies #[trigger] data@.subrange(i, i + 14) != marker() by {}
        return false;
    }
    let mut i: usize = 0;
    while i <= n - 14
        invariant
            n == data@.len(),
            n >= 14,
            i <= n - 13,
            m@ == marker(),
            forall|k: int| 0 <= k < i ==> #[trigger] data@.subrange(k, k + 14) != marker(),
        decreases n - i,
    {
        let mut j: usize = 0;
        while j < 14 && data[i + j] == m[j]
            invariant
                0 <= j <= 14,
                i + 14 <= n,
                n == data@.len(),
                m@ == marker(),
                forall|t: int| 0 <= t < j ==> data@[i + t] == marker()[t],
            decreases 14 - j,
        {
            j = j + 1;
        }
        if j == 14 {
            assert(data@.subrange(i as int, i + 14) =~= marker());
            return true;
        }
        assert(data@.subrange(i as int, i + 14)[j as int] != marker()[j as int]);
        i = i + 1;
    }
    false
}

// Joyetech

/// Key byte of the Joyetech XOR for position `index` of a file of `size`
/// bytes: the low byte of `size + 0x63B38 + index - size / 0x63B38`,
/// computed in wrapping `i32` arithmetic (sizes and positions truncated to
/// `i32`, the quotient rounded toward zero).
pub open spec fn joyetech_key(size: nat, index: nat) -> u8 {
    let fs = size as i32 as int;
    let q = if fs >= 0 { fs / 0x63B38 } else { -((-fs) / 0x63B38) };
    ((fs + 0x63B38 + (index as i32 as int) - q) % 256) as u8
}

/// Joyetech XOR of `d` (its own inverse).
pub open spec fn joyetech(d: Seq<u8>) -> Seq<u8> {
    Seq::new(d.len(), |i: int| d[i] ^ joyetech_key(d.len(), i as nat))
}

fn joyetech_key_exec(file_size: usize, index: usize) -> (k: u8)
    ensures
        k == joyetech_key(file_size as nat, index as nat),
{
    let fs = file_size as i32 as i64;
    let magic = JOYETECH_MAGIC as i64;
    let q = if fs >= 0 { fs / magic } else { -((-fs) / magic) };
    let value = fs + magic + (index as i32 as i64) - q;
    // A multiple of 256 that makes the value positive.
    let shifted = value + 0x2_0000_0000i64;
    assert(shifted % 256 == value % 256);
    (shifted % 256) as u8
}

fn encrypt_joyetech(data: &[u8]) -> (out: Vec<u8>)
    ensures
        out@ == joyetech(data@),
{
    let len = data.len();
    let mut out: Vec<u8> = Vec::new();
    let mut i: usize = 0;
    while i < len
        invariant
            0 <= i <= len,
            len == data@.len(),
            out@ == joyetech(data@).subrange(0, i as int),
        decreases len - i,
    {
        out.push(data[i] ^ joyetech_key_exec(len, i));
        assert(out@ =~= joyetech(data@).subrange(0, i + 1));
        i = i + 1;
    }
    assert(out@ =~= joyetech(data@));
    out
}

/// XOR with the same byte twice gives back the byte.
pub proof fn lemma_xor_twice(x: u8, k: u8)
    by (bit_vector)
    ensures
        (x ^ k) ^ k == x,
{
}

/// Joyetech XOR undoes itself.
pub proof fn lemma_joyetech_involution(d: Seq<u8>)
    ensures
        joyetech(joyetech(d)) == d,
{
    assert forall|i: int| 0 <= i < d.len() implies #[trigger] joyetech(joyetech(d))[i] == d[i] by {
        lemma_xor_twice(d[i], joyetech_key(d.len(), i as nat));
    }
    assert(joyetech(joyetech(d)) =~= d);
}


// The .NET Framework System.Random subtractive generator, which ArcticFox
// uses (`new Random(seed).NextBytes(table)`) to build its XOR table.

pub open spec fn isub(a: i32, b: i32) -> i32 {
    vstd::wrapping::i32_specs::wrapping_sub(a, b)
}

pub open spec fn iadd(a: i32, b: i32) -> i32 {
    vstd::wrapping::i32_specs::wrapping_add(a, b)
}

/// A negative value is folded back by adding `i32::MAX`.
pub open spec fn fold_pos(x: i32) -> i32 {
    if x < 0 {
        iadd(x, 0x7FFF_FFFF)
    } else {
        x
    }
}

/// First seeding pass: slot `(21 i) mod 55` for i in `i..55`.
pub open spec fn seed_pass(arr: Seq<i32>, mj: i32, mk: i32, i: nat) -> Seq<i32>
    decreases 55 - i,
{
    if i >= 55 {
        arr
    } else {
        seed_pass(arr.update(((21 * i) % 55) as int, mk), mk, fold_pos(isub(mj, mk)), i + 1)
    }
}

/// One mixing round over slots `i..56`.
pub open spec fn mix_pass(arr: Seq<i32>, i: nat) -> Seq<i32>
    decreases 56 - i,
{
    if i >= 56 {
        arr
    } else {
        mix_pass(arr.update(i as int, fold_pos(isub(arr[i as int], arr[(1 + (i + 30) % 55) as int]))), i + 1)
    }
}

/// `rounds` mixing rounds.
pub open spec fn mixed(arr: Seq<i32>, rounds: nat) -> Seq<i32>
    decreases rounds,
{
    if rounds == 0 {
        arr
    } else {
        mixed(mix_pass(arr, 1), (rounds - 1) as nat)
    }
}

/// The seed array after construction from `seed`.
pub open spec fn seed_state(seed: i32) -> Seq<i32> {
    let sub: i32 = if seed == i32::MIN {
        i32::MAX
    } else if seed < 0 {
        (-seed) as i32
    } else {
        seed
    };
    let mj = isub(161_803_398, sub);
    mixed(seed_pass(Seq::new(56, |i: int| 0i32).update(55, mj), mj, 1, 1), 4)
}

pub open spec fn next_slot(i: nat) -> nat {
    if i + 1 >= 56 {
        1
    } else {
        i + 1
    }
}

/// The sample drawn from slots `a` and `b`.
pub open spec fn sample_at(arr: Seq<i32>, a: nat, b: nat) -> i32 {
    let r = isub(arr[a as int], arr[b as int]);
    fold_pos(if r == i32::MAX { isub(r, 1) } else { r })
}

/// Bytes `k..len` drawn from the generator state.
pub open spec fn table_from(arr: Seq<i32>, inext: nat, inextp: nat, k: nat, len: nat) -> Seq<u8>
    decreases len - k,
{
    if k >= len {
        seq![]
    } else {
        let a = next_slot(inext);
        let b = next_slot(inextp);
        let v = sample_at(arr, a, b);
        seq![v as u8] + table_from(arr.update(a as int, v), a, b, k + 1, len)
    }
}

/// The ArcticFox XOR table: `len` bytes of `Random(seed).NextBytes`.
pub open spec fn af_table(seed: i32, len: nat) -> Seq<u8> {
    table_from(seed_state(seed), 0, 21, 0, len)
}

// A known answer of the generator, worked through step by step: the state
// after seeding with 1234, the state every 11 steps of each mixing round,
// and the first draws.

/// The generator state for seed 1234: after seeding (`n == 0`), and after
/// `11 (n % 5)` more steps of mixing round `n / 5 + 1` otherwise (so that
/// `5 r` is the state after round `r`).
pub open spec fn random_1234_state(n: nat) -> Seq<i32> {
    if n == 0 {
        seq![
            0i32, 625031456i32, 565386336i32, 2103428111i32, 1136382287i32, 71283796i32, 2062554938i32,
            1245328505i32, 1985681485i32, 347373507i32, 1559482626i32, 1838299304i32, 1379098009i32, 1183394566i32,
            662523570i32, 45723506i32, 809010812i32, 1383021075i32, 769906773i32, 1192681836i32, 2062441192i32,
            1i32, 1559944305i32, 1062434481i32, 897121884i32, 1257740148i32, 627339181i32, 1362539254i32,
            1719267829i32, 323604325i32, 865197291i32, 90952876i32, 1515490570i32, 647027777i32, 408033696i32,
            37492114i32, 1627820817i32, 853066348i32, 246638788i32, 698622977i32, 1277610545i32, 817112687i32,
            161802163i32, 1212570798i32, 1650435502i32, 1206306227i32, 2026125786i32, 1591428262i32, 700015684i32,
            1673544323i32, 1662077160i32, 1629659863i32, 1468529750i32, 322808734i32, 732070232i32, 161802164i32,
        ]
    } else if n == 1 {
        seq![
            0i32, 1257024533i32, 2065842206i32, 1695394415i32, 1098890173i32, 590946626i32, 1209488590i32,
            998689717i32, 1287058508i32, 1217246609i32, 742369939i32, 1676497141i32, 1379098009i32, 1183394566i32,
            662523570i32, 45723506i32, 809010812i32, 1383021075i32, 769906773i32, 1192681836i32, 2062441192i32,
            1i32, 1559944305i32, 1062434481i32, 897121884i32, 1257740148i32, 627339181i32, 1362539254i32,
            1719267829i32, 323604325i32, 865197291i32, 90952876i32, 1515490570i32, 647027777i32, 408033696i32,
            37492114i32, 1627820817i32, 853066348i32, 246638788i32, 698622977i32, 1277610545i32, 817112687i32,
            161802163i32, 1212570798i32, 1650435502i32, 1206306227i32, 2026125786i32, 1591428262i32, 700015684i32,
            1673544323i32, 1662077160i32, 1629659863i32, 1468529750i32, 322808734i32, 732070232i32, 161802164i32,
        ]
    } else if n == 2 {
        seq![
            0i32, 1257024533i32, 2065842206i32, 1695394415i32, 1098890173i32, 590946626i32, 1209488590i32,
            998689717i32, 1287058508i32, 1217246609i32, 742369939i32, 1676497141i32, 166527211i32, 1680442711i32,
            1603700990i32, 167081367i32, 1365066197i32, 683005391i32, 1243846097i32, 1678088323i32, 432781329i32,
            678953898i32, 1237135571i32, 1062434481i32, 897121884i32, 1257740148i32, 627339181i32, 1362539254i32,
            1719267829i32, 323604325i32, 865197291i32, 90952876i32, 1515490570i32, 647027777i32, 408033696i32,
            37492114i32, 1627820817i32, 853066348i32, 246638788i32, 698622977i32, 1277610545i32, 817112687i32,
            161802163i32, 1212570798i32, 1650435502i32, 1206306227i32, 2026125786i32, 1591428262i32, 700015684i32,
            1673544323i32, 1662077160i32, 1629659863i32, 1468529750i32, 322808734i32, 732070232i32, 161802164i32,
        ]
    } else if n == 3 {
        seq![
            0i32, 1257024533i32, 2065842206i32, 1695394415i32, 1098890173i32, 590946626i32, 1209488590i32,
            998689717i32, 1287058508i32, 1217246609i32, 742369939i32, 1676497141i32, 166527211i32, 1680442711i32,
            1603700990i32, 167081367i32, 1365066197i32, 683005391i32, 1243846097i32, 1678088323i32, 432781329i32,
            678953898i32, 1237135571i32, 330364249i32, 735319720i32, 715615i32, 708980622i32, 1814628486i32,
            620377656i32, 1880141346i32, 1803192348i32, 1239746806i32, 228432062i32, 1577264815i32, 408033696i32,
            37492114i32, 1627820817i32, 853066348i32, 246638788i32, 698622977i32, 1277610545i32, 817112687i32,
            161802163i32, 1212570798i32, 1650435502i32, 1206306227i32, 2026125786i32, 1591428262i32, 700015684i32,
            1673544323i32, 1662077160i32, 1629659863i32, 1468529750i32, 322808734i32, 732070232i32, 161802164i32,
        ]
    } else if n == 4 {
        seq![
            0i32, 1257024533i32, 2065842206i32, 1695394415i32, 1098890173i32, 590946626i32, 1209488590i32,
            998689717i32, 1287058508i32, 1217246609i32, 742369939i32, 1676497141i32, 166527211i32, 1680442711i32,
            1603700990i32, 167081367i32, 1365066197i32, 683005391i32, 1243846097i32, 1678088323i32, 432781329i32,
            678953898i32, 1237135571i32, 330364249i32, 735319720i32, 715615i32, 708980622i32, 1814628486i32,
            620377656i32, 1880141346i32, 1803192348i32, 1239746806i32, 228432062i32, 1577264815i32, 1813147404i32,
            508478620i32, 1461293606i32, 1320107284i32, 790421445i32, 531541610i32, 2060027995i32, 134107296i32,
            1065439713i32, 1681966122i32, 1217654173i32, 1206306227i32, 2026125786i32, 1591428262i32, 700015684i32,
            1673544323i32, 1662077160i32, 1629659863i32, 1468529750i32, 322808734i32, 732070232i32, 161802164i32,
        ]
    } else if n == 5 {
        seq![
            0i32, 1257024533i32, 2065842206i32, 1695394415i32, 1098890173i32, 590946626i32, 1209488590i32,
            998689717i32, 1287058508i32, 1217246609i32, 742369939i32, 1676497141i32, 166527211i32, 1680442711i32,
            1603700990i32, 167081367i32, 1365066197i32, 683005391i32, 1243846097i32, 1678088323i32, 432781329i32,
            678953898i32, 1237135571i32, 330364249i32, 735319720i32, 715615i32, 708980622i32, 1814628486i32,
            620377656i32, 1880141346i32, 1803192348i32, 1239746806i32, 228432062i32, 1577264815i32, 1813147404i32,
            508478620i32, 1461293606i32, 1320107284i32, 790421445i32, 531541610i32, 2060027995i32, 134107296i32,
            1065439713i32, 1681966122i32, 1217654173i32, 527352329i32, 788990215i32, 1261064013i32, 2112179611i32,
            1672828708i32, 953096538i32, 1962515024i32, 848152094i32, 590151035i32, 1076361531i32, 1069539005i32,
        ]
    } else if n == 6 {
        seq![
            0i32, 1028592471i32, 488577391i32, 2029730658i32, 590411553i32, 1277136667i32, 2036864953i32,
            208268272i32, 755516898i32, 1304702261i32, 608262643i32, 611057428i32, 166527211i32, 1680442711i32,
            1603700990i32, 167081367i32, 1365066197i32, 683005391i32, 1243846097i32, 1678088323i32, 432781329i32,
            678953898i32, 1237135571i32, 330364249i32, 735319720i32, 715615i32, 708980622i32, 1814628486i32,
            620377656i32, 1880141346i32, 1803192348i32, 1239746806i32, 228432062i32, 1577264815i32, 1813147404i32,
            508478620i32, 1461293606i32, 1320107284i32, 790421445i32, 531541610i32, 2060027995i32, 134107296i32,
            1065439713i32, 1681966122i32, 1217654173i32, 527352329i32, 788990215i32, 1261064013i32, 2112179611i32,
            1672828708i32, 953096538i32, 1962515024i32, 848152094i32, 590151035i32, 1076361531i32, 1069539005i32,
        ]
    } else if n == 7 {
        seq![
            0i32, 1028592471i32, 488577391i32, 2029730658i32, 590411553i32, 1277136667i32, 2036864953i32,
            208268272i32, 755516898i32, 1304702261i32, 608262643i32, 611057428i32, 632044736i32, 462788538i32,
            1076348661i32, 1525574799i32, 104002184i32, 718309427i32, 1718501036i32, 724991785i32, 617749952i32,
            1978285451i32, 646984536i32, 330364249i32, 735319720i32, 715615i32, 708980622i32, 1814628486i32,
            620377656i32, 1880141346i32, 1803192348i32, 1239746806i32, 228432062i32, 1577264815i32, 1813147404i32,
            508478620i32, 1461293606i32, 1320107284i32, 790421445i32, 531541610i32, 2060027995i32, 134107296i32,
            1065439713i32, 1681966122i32, 1217654173i32, 527352329i32, 788990215i32, 1261064013i32, 2112179611i32,
            1672828708i32, 953096538i32, 1962515024i32, 848152094i32, 590151035i32, 1076361531i32, 1069539005i32,
        ]
    } else if n == 8 {
        seq![
            0i32, 1028592471i32, 488577391i32, 2029730658i32, 590411553i32, 1277136667i32, 2036864953i32,
            208268272i32, 755516898i32, 1304702261i32, 608262643i32, 611057428i32, 632044736i32, 462788538i32,
            1076348661i32, 1525574799i32, 104002184i32, 718309427i32, 1718501036i32, 724991785i32, 617749952i32,
            1978285451i32, 646984536i32, 1401486365i32, 1813264362i32, 1119606791i32, 220403231i32, 1932381475i32,
            29966103i32, 603004679i32, 1913811042i32, 1031478534i32, 1620398811i32, 272562554i32, 1813147404i32,
            508478620i32, 1461293606i32, 1320107284i32, 790421445i32, 531541610i32, 2060027995i32, 134107296i32,
            1065439713i32, 1681966122i32, 1217654173i32, 527352329i32, 788990215i32, 1261064013i32, 2112179611i32,
            1672828708i32, 953096538i32, 1962515024i32, 848152094i32, 590151035i32, 1076361531i32, 1069539005i32,
        ]
    } else if n == 9 {
        seq![
            0i32, 1028592471i32, 488577391i32, 2029730658i32, 590411553i32, 1277136667i32, 2036864953i32,
            208268272i32, 755516898i32, 1304702261i32, 608262643i32, 611057428i32, 632044736i32, 462788538i32,
            1076348661i32, 1525574799i32, 104002184i32, 718309427i32, 1718501036i32, 724991785i32, 617749952i32,
            1978285451i32, 646984536i32, 1401486365i32, 1813264362i32, 1119606791i32, 220403231i32, 1932381475i32,
            29966103i32, 603004679i32, 1913811042i32, 1031478534i32, 1620398811i32, 272562554i32, 1204884761i32,
            2044904839i32, 829248870i32, 857318746i32, 1861556431i32, 1153450458i32, 1956025811i32, 1563281516i32,
            1494422324i32, 956974337i32, 599904221i32, 527352329i32, 788990215i32, 1261064013i32, 2112179611i32,
            1672828708i32, 953096538i32, 1962515024i32, 848152094i32, 590151035i32, 1076361531i32, 1069539005i32,
        ]
    } else if n == 10 {
        seq![
            0i32, 1028592471i32, 488577391i32, 2029730658i32, 590411553i32, 1277136667i32, 2036864953i32,
            208268272i32, 755516898i32, 1304702261i32, 608262643i32, 611057428i32, 632044736i32, 462788538i32,
            1076348661i32, 1525574799i32, 104002184i32, 718309427i32, 1718501036i32, 724991785i32, 617749952i32,
            1978285451i32, 646984536i32, 1401486365i32, 1813264362i32, 1119606791i32, 220403231i32, 1932381475i32,
            29966103i32, 603004679i32, 1913811042i32, 1031478534i32, 1620398811i32, 272562554i32, 1204884761i32,
            2044904839i32, 829248870i32, 857318746i32, 1861556431i32, 1153450458i32, 1956025811i32, 1563281516i32,
            1494422324i32, 956974337i32, 599904221i32, 696550525i32, 142005679i32, 2007061295i32, 298915249i32,
            553221917i32, 732693307i32, 30133549i32, 818185991i32, 2134630003i32, 1310034136i32, 38060471i32,
        ]
    } else if n == 11 {
        seq![
            0i32, 1555677307i32, 216014837i32, 824845897i32, 692990361i32, 447887797i32, 1179546207i32,
            494195488i32, 1749550087i32, 1496160097i32, 1192464774i32, 1264118751i32, 632044736i32, 462788538i32,
            1076348661i32, 1525574799i32, 104002184i32, 718309427i32, 1718501036i32, 724991785i32, 617749952i32,
            1978285451i32, 646984536i32, 1401486365i32, 1813264362i32, 1119606791i32, 220403231i32, 1932381475i32,
            29966103i32, 603004679i32, 1913811042i32, 1031478534i32, 1620398811i32, 272562554i32, 1204884761i32,
            2044904839i32, 829248870i32, 857318746i32, 1861556431i32, 1153450458i32, 1956025811i32, 1563281516i32,
            1494422324i32, 956974337i32, 599904221i32, 696550525i32, 142005679i32, 2007061295i32, 298915249i32,
            553221917i32, 732693307i32, 30133549i32, 818185991i32, 2134630003i32, 1310034136i32, 38060471i32,
        ]
    } else if n == 12 {
        seq![
            0i32, 1555677307i32, 216014837i32, 824845897i32, 692990361i32, 447887797i32, 1179546207i32,
            494195488i32, 1749550087i32, 1496160097i32, 1192464774i32, 1264118751i32, 1822554046i32, 2010367964i32,
            379798136i32, 1383569120i32, 244424536i32, 419394178i32, 1165279119i32, 2139782125i32, 587616403i32,
            1160099460i32, 659838180i32, 1401486365i32, 1813264362i32, 1119606791i32, 220403231i32, 1932381475i32,
            29966103i32, 603004679i32, 1913811042i32, 1031478534i32, 1620398811i32, 272562554i32, 1204884761i32,
            2044904839i32, 829248870i32, 857318746i32, 1861556431i32, 1153450458i32, 1956025811i32, 1563281516i32,
            1494422324i32, 956974337i32, 599904221i32, 696550525i32, 142005679i32, 2007061295i32, 298915249i32,
            553221917i32, 732693307i32, 30133549i32, 818185991i32, 2134630003i32, 1310034136i32, 38060471i32,
        ]
    } else if n == 13 {
        seq![
            0i32, 1555677307i32, 216014837i32, 824845897i32, 692990361i32, 447887797i32, 1179546207i32,
            494195488i32, 1749550087i32, 1496160097i32, 1192464774i32, 1264118751i32, 1822554046i32, 2010367964i32,
            379798136i32, 1383569120i32, 244424536i32, 419394178i32, 1165279119i32, 2139782125i32, 587616403i32,
            1160099460i32, 659838180i32, 91452229i32, 1775203891i32, 1711413131i32, 4388394i32, 1107535578i32,
            1484459389i32, 155116882i32, 734264835i32, 537283046i32, 2018332371i32, 923886104i32, 1204884761i32,
            2044904839i32, 829248870i32, 857318746i32, 1861556431i32, 1153450458i32, 1956025811i32, 1563281516i32,
            1494422324i32, 956974337i32, 599904221i32, 696550525i32, 142005679i32, 2007061295i32, 298915249i32,
            553221917i32, 732693307i32, 30133549i32, 818185991i32, 2134630003i32, 1310034136i32, 38060471i32,
        ]
    } else if n == 14 {
        seq![
            0i32, 1555677307i32, 216014837i32, 824845897i32, 692990361i32, 447887797i32, 1179546207i32,
            494195488i32, 1749550087i32, 1496160097i32, 1192464774i32, 1264118751i32, 1822554046i32, 2010367964i32,
            379798136i32, 1383569120i32, 244424536i32, 419394178i32, 1165279119i32, 2139782125i32, 587616403i32,
            1160099460i32, 659838180i32, 91452229i32, 1775203891i32, 1711413131i32, 4388394i32, 1107535578i32,
            1484459389i32, 155116882i32, 734264835i32, 537283046i32, 2018332371i32, 923886104i32, 12419987i32,
            780786088i32, 1154178471i32, 994434429i32, 1481758295i32, 1917364985i32, 1711601275i32, 1143887338i32,
            329143205i32, 964675859i32, 12287818i32, 696550525i32, 142005679i32, 2007061295i32, 298915249i32,
            553221917i32, 732693307i32, 30133549i32, 818185991i32, 2134630003i32, 1310034136i32, 38060471i32,
        ]
    } else if n == 15 {
        seq![
            0i32, 1555677307i32, 216014837i32, 824845897i32, 692990361i32, 447887797i32, 1179546207i32,
            494195488i32, 1749550087i32, 1496160097i32, 1192464774i32, 1264118751i32, 1822554046i32, 2010367964i32,
            379798136i32, 1383569120i32, 244424536i32, 419394178i32, 1165279119i32, 2139782125i32, 587616403i32,
            1160099460i32, 659838180i32, 91452229i32, 1775203891i32, 1711413131i32, 4388394i32, 1107535578i32,
            1484459389i32, 155116882i32, 734264835i32, 537283046i32, 2018332371i32, 923886104i32, 12419987i32,
            780786088i32, 1154178471i32, 994434429i32, 1481758295i32, 1917364985i32, 1711601275i32, 1143887338i32,
            329143205i32, 964675859i32, 12287818i32, 1683934712i32, 1629651146i32, 1915609066i32, 671195005i32,
            989292433i32, 728304913i32, 1070081618i32, 1481210249i32, 1979513121i32, 575769301i32, 1648261072i32,
        ]
    } else if n == 16 {
        seq![
            0i32, 1684828583i32, 1439612380i32, 812425910i32, 2059687920i32, 1441192973i32, 185111778i32,
            1159920840i32, 1979668749i32, 1932042469i32, 48577436i32, 934975546i32, 1822554046i32, 2010367964i32,
            379798136i32, 1383569120i32, 244424536i32, 419394178i32, 1165279119i32, 2139782125i32, 587616403i32,
            1160099460i32, 659838180i32, 91452229i32, 1775203891i32, 1711413131i32, 4388394i32, 1107535578i32,
            1484459389i32, 155116882i32, 734264835i32, 537283046i32, 2018332371i32, 923886104i32, 12419987i32,
            780786088i32, 1154178471i32, 994434429i32, 1481758295i32, 1917364985i32, 1711601275i32, 1143887338i32,
            329143205i32, 964675859i32, 12287818i32, 1683934712i32, 1629651146i32, 1915609066i32, 671195005i32,
            989292433i32, 728304913i32, 1070081618i32, 1481210249i32, 1979513121i32, 575769301i32, 1648261072i32,
        ]
    } else if n == 17 {
        seq![
            0i32, 1684828583i32, 1439612380i32, 812425910i32, 2059687920i32, 1441192973i32, 185111778i32,
            1159920840i32, 1979668749i32, 1932042469i32, 48577436i32, 934975546i32, 857878187i32, 1998080146i32,
            843347071i32, 1901401621i32, 476299117i32, 1895682820i32, 175986686i32, 1411477212i32, 1665018432i32,
            1826372858i32, 827808706i32, 91452229i32, 1775203891i32, 1711413131i32, 4388394i32, 1107535578i32,
            1484459389i32, 155116882i32, 734264835i32, 537283046i32, 2018332371i32, 923886104i32, 12419987i32,
            780786088i32, 1154178471i32, 994434429i32, 1481758295i32, 1917364985i32, 1711601275i32, 1143887338i32,
            329143205i32, 964675859i32, 12287818i32, 1683934712i32, 1629651146i32, 1915609066i32, 671195005i32,
            989292433i32, 728304913i32, 1070081618i32, 1481210249i32, 1979513121i32, 575769301i32, 1648261072i32,
        ]
    } else if n == 18 {
        seq![
            0i32, 1684828583i32, 1439612380i32, 812425910i32, 2059687920i32, 1441192973i32, 185111778i32,
            1159920840i32, 1979668749i32, 1932042469i32, 48577436i32, 934975546i32, 857878187i32, 1998080146i32,
            843347071i32, 1901401621i32, 476299117i32, 1895682820i32, 175986686i32, 1411477212i32, 1665018432i32,
            1826372858i32, 827808706i32, 1663166575i32, 126942819i32, 26584548i32, 712259661i32, 295109668i32,
            1572255116i32, 861407556i32, 549153057i32, 1524845853i32, 38663622i32, 1139327282i32, 12419987i32,
            780786088i32, 1154178471i32, 994434429i32, 1481758295i32, 1917364985i32, 1711601275i32, 1143887338i32,
            329143205i32, 964675859i32, 12287818i32, 1683934712i32, 1629651146i32, 1915609066i32, 671195005i32,
            989292433i32, 728304913i32, 1070081618i32, 1481210249i32, 1979513121i32, 575769301i32, 1648261072i32,
        ]
    } else if n == 19 {
        seq![
            0i32, 1684828583i32, 1439612380i32, 812425910i32, 2059687920i32, 1441192973i32, 185111778i32,
            1159920840i32, 1979668749i32, 1932042469i32, 48577436i32, 934975546i32, 857878187i32, 1998080146i32,
            843347071i32, 1901401621i32, 476299117i32, 1895682820i32, 175986686i32, 1411477212i32, 1665018432i32,
            1826372858i32, 827808706i32, 1663166575i32, 126942819i32, 26584548i32, 712259661i32, 295109668i32,
            1572255116i32, 861407556i32, 549153057i32, 1524845853i32, 38663622i32, 1139327282i32, 2111326198i32,
            1993294189i32, 296300284i32, 1143837930i32, 638411224i32, 15963364i32, 1235302158i32, 1395688165i32,
            153156519i32, 1700682294i32, 494753033i32, 1683934712i32, 1629651146i32, 1915609066i32, 671195005i32,
            989292433i32, 728304913i32, 1070081618i32, 1481210249i32, 1979513121i32, 575769301i32, 1648261072i32,
        ]
    } else {
        seq![
            0i32, 1684828583i32, 1439612380i32, 812425910i32, 2059687920i32, 1441192973i32, 185111778i32,
            1159920840i32, 1979668749i32, 1932042469i32, 48577436i32, 934975546i32, 857878187i32, 1998080146i32,
            843347071i32, 1901401621i32, 476299117i32, 1895682820i32, 175986686i32, 1411477212i32, 1665018432i32,
            1826372858i32, 827808706i32, 1663166575i32, 126942819i32, 26584548i32, 712259661i32, 295109668i32,
            1572255116i32, 861407556i32, 549153057i32, 1524845853i32, 38663622i32, 1139327282i32, 2111326198i32,
            1993294189i32, 296300284i32, 1143837930i32, 638411224i32, 15963364i32, 1235302158i32, 1395688165i32,
            153156519i32, 1700682294i32, 494753033i32, 2005045501i32, 801842440i32, 252442491i32, 544252186i32,
            962707885i32, 16045252i32, 774971950i32, 2056438780i32, 1118105565i32, 26616244i32, 123415219i32,
        ]
    }
}

proof fn lemma_random_1234_seeded()
    ensures
        seed_pass(Seq::new(56, |i: int| 0i32).update(55, isub(161_803_398, 1234)), isub(161_803_398, 1234), 1, 1)
            == random_1234_state(0),
{
    let c0 = Seq::new(56, |i: int| 0i32).update(55, 161802164i32);
    assert(isub(161_803_398, 1234) == 161802164i32);
    let c1 = c0.update(21, 1i32);
    assert(seed_pass(c0, 161802164i32, 1i32, 1) == seed_pass(c1, 1i32, 161802163i32, 2));
    let c2 = c1.update(42, 161802163i32);
    assert(seed_pass(c1, 1i32, 161802163i32, 2) == seed_pass(c2, 161802163i32, 1985681485i32, 3));
    let c3 = c2.update(8, 1985681485i32);
    assert(seed_pass(c2, 161802163i32, 1985681485i32, 3) == seed_pass(c3, 1985681485i32, 323604325i32, 4));
    let c4 = c3.update(29, 323604325i32);
    assert(seed_pass(c3, 1985681485i32, 323604325i32, 4) == seed_pass(c4, 323604325i32, 1662077160i32, 5));
    let c5 = c4.update(50, 1662077160i32);
    assert(seed_pass(c4, 323604325i32, 1662077160i32, 5) == seed_pass(c5, 1662077160i32, 809010812i32, 6));
    let c6 = c5.update(16, 809010812i32);
    assert(seed_pass(c5, 1662077160i32, 809010812i32, 6) == seed_pass(c6, 809010812i32, 853066348i32, 7));
    let c7 = c6.update(37, 853066348i32);
    assert(seed_pass(c6, 809010812i32, 853066348i32, 7) == seed_pass(c7, 853066348i32, 2103428111i32, 8));
    let c8 = c7.update(3, 2103428111i32);
    assert(seed_pass(c7, 853066348i32, 2103428111i32, 8) == seed_pass(c8, 2103428111i32, 897121884i32, 9));
    let c9 = c8.update(24, 897121884i32);
    assert(seed_pass(c8, 2103428111i32, 897121884i32, 9) == seed_pass(c9, 897121884i32, 1206306227i32, 10));
    let c10 = c9.update(45, 1206306227i32);
    assert(seed_pass(c9, 897121884i32, 1206306227i32, 10) == seed_pass(c10, 1206306227i32, 1838299304i32, 11));
    let c11 = c10.update(11, 1838299304i32);
    assert(seed_pass(c10, 1206306227i32, 1838299304i32, 11) == seed_pass(c11, 1838299304i32, 1515490570i32, 12));
    let c12 = c11.update(32, 1515490570i32);
    assert(seed_pass(c11, 1838299304i32, 1515490570i32, 12) == seed_pass(c12, 1515490570i32, 322808734i32, 13));
    let c13 = c12.update(53, 322808734i32);
    assert(seed_pass(c12, 1515490570i32, 322808734i32, 13) == seed_pass(c13, 322808734i32, 1192681836i32, 14));
    let c14 = c13.update(19, 1192681836i32);
    assert(seed_pass(c13, 322808734i32, 1192681836i32, 14) == seed_pass(c14, 1192681836i32, 1277610545i32, 15));
    let c15 = c14.update(40, 1277610545i32);
    assert(seed_pass(c14, 1192681836i32, 1277610545i32, 15) == seed_pass(c15, 1277610545i32, 2062554938i32, 16));
    let c16 = c15.update(6, 2062554938i32);
    assert(seed_pass(c15, 1277610545i32, 2062554938i32, 16) == seed_pass(c16, 2062554938i32, 1362539254i32, 17));
    let c17 = c16.update(27, 1362539254i32);
    assert(seed_pass(c16, 2062554938i32, 1362539254i32, 17) == seed_pass(c17, 1362539254i32, 700015684i32, 18));
    let c18 = c17.update(48, 700015684i32);
    assert(seed_pass(c17, 1362539254i32, 700015684i32, 18) == seed_pass(c18, 700015684i32, 662523570i32, 19));
    let c19 = c18.update(14, 662523570i32);
    assert(seed_pass(c18, 700015684i32, 662523570i32, 19) == seed_pass(c19, 662523570i32, 37492114i32, 20));
    let c20 = c19.update(35, 37492114i32);
    assert(seed_pass(c19, 662523570i32, 37492114i32, 20) == seed_pass(c20, 37492114i32, 625031456i32, 21));
    let c21 = c20.update(1, 625031456i32);
    assert(seed_pass(c20, 37492114i32, 625031456i32, 21) == seed_pass(c21, 625031456i32, 1559944305i32, 22));
    let c22 = c21.update(22, 1559944305i32);
    assert(seed_pass(c21, 625031456i32, 1559944305i32, 22) == seed_pass(c22, 1559944305i32, 1212570798i32, 23));
    let c23 = c22.update(43, 1212570798i32);
    assert(seed_pass(c22, 1559944305i32, 1212570798i32, 23) == seed_pass(c23, 1212570798i32, 347373507i32, 24));
    let c24 = c23.update(9, 347373507i32);
    assert(seed_pass(c23, 1212570798i32, 347373507i32, 24) == seed_pass(c24, 347373507i32, 865197291i32, 25));
    let c25 = c24.update(30, 865197291i32);
    assert(seed_pass(c24, 347373507i32, 865197291i32, 25) == seed_pass(c25, 865197291i32, 1629659863i32, 26));
    let c26 = c25.update(51, 1629659863i32);
    assert(seed_pass(c25, 865197291i32, 1629659863i32, 26) == seed_pass(c26, 1629659863i32, 1383021075i32, 27));
    let c27 = c26.update(17, 1383021075i32);
    assert(seed_pass(c26, 1629659863i32, 1383021075i32, 27) == seed_pass(c27, 1383021075i32, 246638788i32, 28));
    let c28 = c27.update(38, 246638788i32);
    assert(seed_pass(c27, 1383021075i32, 246638788i32, 28) == seed_pass(c28, 246638788i32, 1136382287i32, 29));
    let c29 = c28.update(4, 1136382287i32);
    assert(seed_pass(c28, 246638788i32, 1136382287i32, 29) == seed_pass(c29, 1136382287i32, 1257740148i32, 30));
    let c30 = c29.update(25, 1257740148i32);
    assert(seed_pass(c29, 1136382287i32, 1257740148i32, 30) == seed_pass(c30, 1257740148i32, 2026125786i32, 31));
    let c31 = c30.update(46, 2026125786i32);
    assert(seed_pass(c30, 1257740148i32, 2026125786i32, 31) == seed_pass(c31, 2026125786i32, 1379098009i32, 32));
    let c32 = c31.update(12, 1379098009i32);
    assert(seed_pass(c31, 2026125786i32, 1379098009i32, 32) == seed_pass(c32, 1379098009i32, 647027777i32, 33));
    let c33 = c32.update(33, 647027777i32);
    assert(seed_pass(c32, 1379098009i32, 647027777i32, 33) == seed_pass(c33, 647027777i32, 732070232i32, 34));
    let c34 = c33.update(54, 732070232i32);
    assert(seed_pass(c33, 647027777i32, 732070232i32, 34) == seed_pass(c34, 732070232i32, 2062441192i32, 35));
    let c35 = c34.update(20, 2062441192i32);
    assert(seed_pass(c34, 732070232i32, 2062441192i32, 35) == seed_pass(c35, 2062441192i32, 817112687i32, 36));
    let c36 = c35.update(41, 817112687i32);
    assert(seed_pass(c35, 2062441192i32, 817112687i32, 36) == seed_pass(c36, 817112687i32, 1245328505i32, 37));
    let c37 = c36.update(7, 1245328505i32);
    assert(seed_pass(c36, 817112687i32, 1245328505i32, 37) == seed_pass(c37, 1245328505i32, 1719267829i32, 38));
    let c38 = c37.update(28, 1719267829i32);
    assert(seed_pass(c37, 1245328505i32, 1719267829i32, 38) == seed_pass(c38, 1719267829i32, 1673544323i32, 39));
    let c39 = c38.update(49, 1673544323i32);
    assert(seed_pass(c38, 1719267829i32, 1673544323i32, 39) == seed_pass(c39, 1673544323i32, 45723506i32, 40));
    let c40 = c39.update(15, 45723506i32);
    assert(seed_pass(c39, 1673544323i32, 45723506i32, 40) == seed_pass(c40, 45723506i32, 1627820817i32, 41));
    let c41 = c40.update(36, 1627820817i32);
    assert(seed_pass(c40, 45723506i32, 1627820817i32, 41) == seed_pass(c41, 1627820817i32, 565386336i32, 42));
    let c42 = c41.update(2, 565386336i32);
    assert(seed_pass(c41, 1627820817i32, 565386336i32, 42) == seed_pass(c42, 565386336i32, 1062434481i32, 43));
    let c43 = c42.update(23, 1062434481i32);
    assert(seed_pass(c42, 565386336i32, 1062434481i32, 43) == seed_pass(c43, 1062434481i32, 1650435502i32, 44));
    let c44 = c43.update(44, 1650435502i32);
    assert(seed_pass(c43, 1062434481i32, 1650435502i32, 44) == seed_pass(c44, 1650435502i32, 1559482626i32, 45));
    let c45 = c44.update(10, 1559482626i32);
    assert(seed_pass(c44, 1650435502i32, 1559482626i32, 45) == seed_pass(c45, 1559482626i32, 90952876i32, 46));
    let c46 = c45.update(31, 90952876i32);
    assert(seed_pass(c45, 1559482626i32, 90952876i32, 46) == seed_pass(c46, 90952876i32, 1468529750i32, 47));
    let c47 = c46.update(52, 1468529750i32);
    assert(seed_pass(c46, 90952876i32, 1468529750i32, 47) == seed_pass(c47, 1468529750i32, 769906773i32, 48));
    let c48 = c47.update(18, 769906773i32);
    assert(seed_pass(c47, 1468529750i32, 769906773i32, 48) == seed_pass(c48, 769906773i32, 698622977i32, 49));
    let c49 = c48.update(39, 698622977i32);
    assert(seed_pass(c48, 769906773i32, 698622977i32, 49) == seed_pass(c49, 698622977i32, 71283796i32, 50));
    let c50 = c49.update(5, 71283796i32);
    assert(seed_pass(c49, 698622977i32, 71283796i32, 50) == seed_pass(c50, 71283796i32, 627339181i32, 51));
    let c51 = c50.update(26, 627339181i32);
    assert(seed_pass(c50, 71283796i32, 627339181i32, 51) == seed_pass(c51, 627339181i32, 1591428262i32, 52));
    let c52 = c51.update(47, 1591428262i32);
    assert(seed_pass(c51, 627339181i32, 1591428262i32, 52) == seed_pass(c52, 1591428262i32, 1183394566i32, 53));
    let c53 = c52.update(13, 1183394566i32);
    assert(seed_pass(c52, 1591428262i32, 1183394566i32, 53) == seed_pass(c53, 1183394566i32, 408033696i32, 54));
    let c54 = c53.update(34, 408033696i32);
    assert(seed_pass(c53, 1183394566i32, 408033696i32, 54) == seed_pass(c54, 408033696i32, 775360870i32, 55));
    assert(seed_pass(c54, 408033696i32, 775360870i32, 55) == c54);
    assert(c54 =~= random_1234_state(0));
}

proof fn lemma_random_1234_chunk0()
    ensures
        mix_pass(random_1234_state(0), 1) == mix_pass(random_1234_state(1), 12),
{
    let c0 = random_1234_state(0);
    let c1 = c0.update(1, 1257024533i32);
    assert(mix_pass(c0, 1) == mix_pass(c1, 2));
    let c2 = c1.update(2, 2065842206i32);
    assert(mix_pass(c1, 2) == mix_pass(c2, 3));
    let c3 = c2.update(3, 1695394415i32);
    assert(mix_pass(c2, 3) == mix_pass(c3, 4));
    let c4 = c3.update(4, 1098890173i32);
    assert(mix_pass(c3, 4) == mix_pass(c4, 5));
    let c5 = c4.update(5, 590946626i32);
    assert(mix_pass(c4, 5) == mix_pass(c5, 6));
    let c6 = c5.update(6, 1209488590i32);
    assert(mix_pass(c5, 6) == mix_pass(c6, 7));
    let c7 = c6.update(7, 998689717i32);
    assert(mix_pass(c6, 7) == mix_pass(c7, 8));
    let c8 = c7.update(8, 1287058508i32);
    assert(mix_pass(c7, 8) == mix_pass(c8, 9));
    let c9 = c8.update(9, 1217246609i32);
    assert(mix_pass(c8, 9) == mix_pass(c9, 10));
    let c10 = c9.update(10, 742369939i32);
    assert(mix_pass(c9, 10) == mix_pass(c10, 11));
    let c11 = c10.update(11, 1676497141i32);
    assert(mix_pass(c10, 11) == mix_pass(c11, 12));
    assert(c11 =~= random_1234_state(1));
}

proof fn lemma_random_1234_chunk1()
    ensures
        mix_pass(random_1234_state(1), 12) == mix_pass(random_1234_state(2), 23),
{
    let c11 = random_1234_state(1);
    let c12 = c11.update(12, 166527211i32);
    assert(mix_pass(c11, 12) == mix_pass(c12, 13));
    let c13 = c12.update(13, 1680442711i32);
    assert(mix_pass(c12, 13) == mix_pass(c13, 14));
    let c14 = c13.update(14, 1603700990i32);
    assert(mix_pass(c13, 14) == mix_pass(c14, 15));
    let c15 = c14.update(15, 167081367i32);
    assert(mix_pass(c14, 15) == mix_pass(c15, 16));
    let c16 = c15.update(16, 1365066197i32);
    assert(mix_pass(c15, 16) == mix_pass(c16, 17));
    let c17 = c16.update(17, 683005391i32);
    assert(mix_pass(c16, 17) == mix_pass(c17, 18));
    let c18 = c17.update(18, 1243846097i32);
    assert(mix_pass(c17, 18) == mix_pass(c18, 19));
    let c19 = c18.update(19, 1678088323i32);
    assert(mix_pass(c18, 19) == mix_pass(c19, 20));
    let c20 = c19.update(20, 432781329i32);
    assert(mix_pass(c19, 20) == mix_pass(c20, 21));
    let c21 = c20.update(21, 678953898i32);
    assert(mix_pass(c20, 21) == mix_pass(c21, 22));
    let c22 = c21.update(22, 1237135571i32);
    assert(mix_pass(c21, 22) == mix_pass(c22, 23));
    assert(c22 =~= random_1234_state(2));
}

proof fn lemma_random_1234_chunk2()
    ensures
        mix_pass(random_1234_state(2), 23) == mix_pass(random_1234_state(3), 34),
{
    let c22 = random_1234_state(2);
    let c23 = c22.update(23, 330364249i32);
    assert(mix_pass(c22, 23) == mix_pass(c23, 24));
    let c24 = c23.update(24, 735319720i32);
    assert(mix_pass(c23, 24) == mix_pass(c24, 25));
    let c25 = c24.update(25, 715615i32);
    assert(mix_pass(c24, 25) == mix_pass(c25, 26));
    let c26 = c25.update(26, 708980622i32);
    assert(mix_pass(c25, 26) == mix_pass(c26, 27));
    let c27 = c26.update(27, 1814628486i32);
    assert(mix_pass(c26, 27) == mix_pass(c27, 28));
    let c28 = c27.update(28, 620377656i32);
    assert(mix_pass(c27, 28) == mix_pass(c28, 29));
    let c29 = c28.update(29, 1880141346i32);
    assert(mix_pass(c28, 29) == mix_pass(c29, 30));
    let c30 = c29.update(30, 1803192348i32);
    assert(mix_pass(c29, 30) == mix_pass(c30, 31));
    let c31 = c30.update(31, 1239746806i32);
    assert(mix_pass(c30, 31) == mix_pass(c31, 32));
    let c32 = c31.update(32, 228432062i32);
    assert(mix_pass(c31, 32) == mix_pass(c32, 33));
    let c33 = c32.update(33, 1577264815i32);
    assert(mix_pass(c32, 33) == mix_pass(c33, 34));
    assert(c33 =~= random_1234_state(3));
}

proof fn lemma_random_1234_chunk3()
    ensures
        mix_pass(random_1234_state(3), 34) == mix_pass(random_1234_state(4), 45),
{
    let c33 = random_1234_state(3);
    let c34 = c33.update(34, 1813147404i32);
    assert(mix_pass(c33, 34) == mix_pass(c34, 35));
    let c35 = c34.update(35, 508478620i32);
    assert(mix_pass(c34, 35) == mix_pass(c35, 36));
    let c36 = c35.update(36, 1461293606i32);
    assert(mix_pass(c35, 36) == mix_pass(c36, 37));
    let c37 = c36.update(37, 1320107284i32);
    assert(mix_pass(c36, 37) == mix_pass(c37, 38));
    let c38 = c37.update(38, 790421445i32);
    assert(mix_pass(c37, 38) == mix_pass(c38, 39));
    let c39 = c38.update(39, 531541610i32);
    assert(mix_pass(c38, 39) == mix_pass(c39, 40));
    let c40 = c39.update(40, 2060027995i32);
    assert(mix_pass(c39, 40) == mix_pass(c40, 41));
    let c41 = c40.update(41, 134107296i32);
    assert(mix_pass(c40, 41) == mix_pass(c41, 42));
    let c42 = c41.update(42, 1065439713i32);
    assert(mix_pass(c41, 42) == mix_pass(c42, 43));
    let c43 = c42.update(43, 1681966122i32);
    assert(mix_pass(c42, 43) == mix_pass(c43, 44));
    let c44 = c43.update(44, 1217654173i32);
    assert(mix_pass(c43, 44) == mix_pass(c44, 45));
    assert(c44 =~= random_1234_state(4));
}

proof fn lemma_random_1234_chunk4()
    ensures
        mix_pass(random_1234_state(4), 45) == mix_pass(random_1234_state(5), 56),
{
    let c44 = random_1234_state(4);
    let c45 = c44.update(45, 527352329i32);
    assert(mix_pass(c44, 45) == mix_pass(c45, 46));
    let c46 = c45.update(46, 788990215i32);
    assert(mix_pass(c45, 46) == mix_pass(c46, 47));
    let c47 = c46.update(47, 1261064013i32);
    assert(mix_pass(c46, 47) == mix_pass(c47, 48));
    let c48 = c47.update(48, 2112179611i32);
    assert(mix_pass(c47, 48) == mix_pass(c48, 49));
    let c49 = c48.update(49, 1672828708i32);
    assert(mix_pass(c48, 49) == mix_pass(c49, 50));
    let c50 = c49.update(50, 953096538i32);
    assert(mix_pass(c49, 50) == mix_pass(c50, 51));
    let c51 = c50.update(51, 1962515024i32);
    assert(mix_pass(c50, 51) == mix_pass(c51, 52));
    let c52 = c51.update(52, 848152094i32);
    assert(mix_pass(c51, 52) == mix_pass(c52, 53));
    let c53 = c52.update(53, 590151035i32);
    assert(mix_pass(c52, 53) == mix_pass(c53, 54));
    let c54 = c53.update(54, 1076361531i32);
    assert(mix_pass(c53, 54) == mix_pass(c54, 55));
    let c55 = c54.update(55, 1069539005i32);
    assert(mix_pass(c54, 55) == mix_pass(c55, 56));
    assert(c55 =~= random_1234_state(5));
}

proof fn lemma_random_1234_chunk5()
    ensures
        mix_pass(random_1234_state(5), 1) == mix_pass(random_1234_state(6), 12),
{
    let c0 = random_1234_state(5);
    let c1 = c0.update(1, 1028592471i32);
    assert(mix_pass(c0, 1) == mix_pass(c1, 2));
    let c2 = c1.update(2, 488577391i32);
    assert(mix_pass(c1, 2) == mix_pass(c2, 3));
    let c3 = c2.update(3, 2029730658i32);
    assert(mix_pass(c2, 3) == mix_pass(c3, 4));
    let c4 = c3.update(4, 590411553i32);
    assert(mix_pass(c3, 4) == mix_pass(c4, 5));
    let c5 = c4.update(5, 1277136667i32);
    assert(mix_pass(c4, 5) == mix_pass(c5, 6));
    let c6 = c5.update(6, 2036864953i32);
    assert(mix_pass(c5, 6) == mix_pass(c6, 7));
    let c7 = c6.update(7, 208268272i32);
    assert(mix_pass(c6, 7) == mix_pass(c7, 8));
    let c8 = c7.update(8, 755516898i32);
    assert(mix_pass(c7, 8) == mix_pass(c8, 9));
    let c9 = c8.update(9, 1304702261i32);
    assert(mix_pass(c8, 9) == mix_pass(c9, 10));
    let c10 = c9.update(10, 608262643i32);
    assert(mix_pass(c9, 10) == mix_pass(c10, 11));
    let c11 = c10.update(11, 611057428i32);
    assert(mix_pass(c10, 11) == mix_pass(c11, 12));
    assert(c11 =~= random_1234_state(6));
}

proof fn lemma_random_1234_chunk6()
    ensures
        mix_pass(random_1234_state(6), 12) == mix_pass(random_1234_state(7), 23),
{
    let c11 = random_1234_state(6);
    let c12 = c11.update(12, 632044736i32);
    assert(mix_pass(c11, 12) == mix_pass(c12, 13));
    let c13 = c12.update(13, 462788538i32);
    assert(mix_pass(c12, 13) == mix_pass(c13, 14));
    let c14 = c13.update(14, 1076348661i32);
    assert(mix_pass(c13, 14) == mix_pass(c14, 15));
    let c15 = c14.update(15, 1525574799i32);
    assert(mix_pass(c14, 15) == mix_pass(c15, 16));
    let c16 = c15.update(16, 104002184i32);
    assert(mix_pass(c15, 16) == mix_pass(c16, 17));
    let c17 = c16.update(17, 718309427i32);
    assert(mix_pass(c16, 17) == mix_pass(c17, 18));
    let c18 = c17.update(18, 1718501036i32);
    assert(mix_pass(c17, 18) == mix_pass(c18, 19));
    let c19 = c18.update(19, 724991785i32);
    assert(mix_pass(c18, 19) == mix_pass(c19, 20));
    let c20 = c19.update(20, 617749952i32);
    assert(mix_pass(c19, 20) == mix_pass(c20, 21));
    let c21 = c20.update(21, 1978285451i32);
    assert(mix_pass(c20, 21) == mix_pass(c21, 22));
    let c22 = c21.update(22, 646984536i32);
    assert(mix_pass(c21, 22) == mix_pass(c22, 23));
    assert(c22 =~= random_1234_state(7));
}

proof fn lemma_random_1234_chunk7()
    ensures
        mix_pass(random_1234_state(7), 23) == mix_pass(random_1234_state(8), 34),
{
    let c22 = random_1234_state(7);
    let c23 = c22.update(23, 1401486365i32);
    assert(mix_pass(c22, 23) == mix_pass(c23, 24));
    let c24 = c23.update(24, 1813264362i32);
    assert(mix_pass(c23, 24) == mix_pass(c24, 25));
    let c25 = c24.update(25, 1119606791i32);
    assert(mix_pass(c24, 25) == mix_pass(c25, 26));
    let c26 = c25.update(26, 220403231i32);
    assert(mix_pass(c25, 26) == mix_pass(c26, 27));
    let c27 = c26.update(27, 1932381475i32);
    assert(mix_pass(c26, 27) == mix_pass(c27, 28));
    let c28 = c27.update(28, 29966103i32);
    assert(mix_pass(c27, 28) == mix_pass(c28, 29));
    let c29 = c28.update(29, 603004679i32);
    assert(mix_pass(c28, 29) == mix_pass(c29, 30));
    let c30 = c29.update(30, 1913811042i32);
    assert(mix_pass(c29, 30) == mix_pass(c30, 31));
    let c31 = c30.update(31, 1031478534i32);
    assert(mix_pass(c30, 31) == mix_pass(c31, 32));
    let c32 = c31.update(32, 1620398811i32);
    assert(mix_pass(c31, 32) == mix_pass(c32, 33));
    let c33 = c32.update(33, 272562554i32);
    assert(mix_pass(c32, 33) == mix_pass(c33, 34));
    assert(c33 =~= random_1234_state(8));
}

proof fn lemma_random_1234_chunk8()
    ensures
        mix_pass(random_1234_state(8), 34) == mix_pass(random_1234_state(9), 45),
{
    let c33 = random_1234_state(8);
    let c34 = c33.update(34, 1204884761i32);
    assert(mix_pass(c33, 34) == mix_pass(c34, 35));
    let c35 = c34.update(35, 2044904839i32);
    assert(mix_pass(c34, 35) == mix_pass(c35, 36));
    let c36 = c35.update(36, 829248870i32);
    assert(mix_pass(c35, 36) == mix_pass(c36, 37));
    let c37 = c36.update(37, 857318746i32);
    assert(mix_pass(c36, 37) == mix_pass(c37, 38));
    let c38 = c37.update(38, 1861556431i32);
    assert(mix_pass(c37, 38) == mix_pass(c38, 39));
    let c39 = c38.update(39, 1153450458i32);
    assert(mix_pass(c38, 39) == mix_pass(c39, 40));
    let c40 = c39.update(40, 1956025811i32);
    assert(mix_pass(c39, 40) == mix_pass(c40, 41));
    let c41 = c40.update(41, 1563281516i32);
    assert(mix_pass(c40, 41) == mix_pass(c41, 42));
    let c42 = c41.update(42, 1494422324i32);
    assert(mix_pass(c41, 42) == mix_pass(c42, 43));
    let c43 = c42.update(43, 956974337i32);
    assert(mix_pass(c42, 43) == mix_pass(c43, 44));
    let c44 = c43.update(44, 599904221i32);
    assert(mix_pass(c43, 44) == mix_pass(c44, 45));
    assert(c44 =~= random_1234_state(9));
}

proof fn lemma_random_1234_chunk9()
    ensures
        mix_pass(random_1234_state(9), 45) == mix_pass(random_1234_state(10), 56),
{
    let c44 = random_1234_state(9);
    let c45 = c44.update(45, 696550525i32);
    assert(mix_pass(c44, 45) == mix_pass(c45, 46));
    let c46 = c45.update(46, 142005679i32);
    assert(mix_pass(c45, 46) == mix_pass(c46, 47));
    let c47 = c46.update(47, 2007061295i32);
    assert(mix_pass(c46, 47) == mix_pass(c47, 48));
    let c48 = c47.update(48, 298915249i32);
    assert(mix_pass(c47, 48) == mix_pass(c48, 49));
    let c49 = c48.update(49, 553221917i32);
    assert(mix_pass(c48, 49) == mix_pass(c49, 50));
    let c50 = c49.update(50, 732693307i32);
    assert(mix_pass(c49, 50) == mix_pass(c50, 51));
    let c51 = c50.update(51, 30133549i32);
    assert(mix_pass(c50, 51) == mix_pass(c51, 52));
    let c52 = c51.update(52, 818185991i32);
    assert(mix_pass(c51, 52) == mix_pass(c52, 53));
    let c53 = c52.update(53, 2134630003i32);
    assert(mix_pass(c52, 53) == mix_pass(c53, 54));
    let c54 = c53.update(54, 1310034136i32);
    assert(mix_pass(c53, 54) == mix_pass(c54, 55));
    let c55 = c54.update(55, 38060471i32);
    assert(mix_pass(c54, 55) == mix_pass(c55, 56));
    assert(c55 =~= random_1234_state(10));
}

proof fn lemma_random_1234_chunk10()
    ensures
        mix_pass(random_1234_state(10), 1) == mix_pass(random_1234_state(11), 12),
{
    let c0 = random_1234_state(10);
    let c1 = c0.update(1, 1555677307i32);
    assert(mix_pass(c0, 1) == mix_pass(c1, 2));
    let c2 = c1.update(2, 216014837i32);
    assert(mix_pass(c1, 2) == mix_pass(c2, 3));
    let c3 = c2.update(3, 824845897i32);
    assert(mix_pass(c2, 3) == mix_pass(c3, 4));
    let c4 = c3.update(4, 692990361i32);
    assert(mix_pass(c3, 4) == mix_pass(c4, 5));
    let c5 = c4.update(5, 447887797i32);
    assert(mix_pass(c4, 5) == mix_pass(c5, 6));
    let c6 = c5.update(6, 1179546207i32);
    assert(mix_pass(c5, 6) == mix_pass(c6, 7));
    let c7 = c6.update(7, 494195488i32);
    assert(mix_pass(c6, 7) == mix_pass(c7, 8));
    let c8 = c7.update(8, 1749550087i32);
    assert(mix_pass(c7, 8) == mix_pass(c8, 9));
    let c9 = c8.update(9, 1496160097i32);
    assert(mix_pass(c8, 9) == mix_pass(c9, 10));
    let c10 = c9.update(10, 1192464774i32);
    assert(mix_pass(c9, 10) == mix_pass(c10, 11));
    let c11 = c10.update(11, 1264118751i32);
    assert(mix_pass(c10, 11) == mix_pass(c11, 12));
    assert(c11 =~= random_1234_state(11));
}

proof fn lemma_random_1234_chunk11()
    ensures
        mix_pass(random_1234_state(11), 12) == mix_pass(random_1234_state(12), 23),
{
    let c11 = random_1234_state(11);
    let c12 = c11.update(12, 1822554046i32);
    assert(mix_pass(c11, 12) == mix_pass(c12, 13));
    let c13 = c12.update(13, 2010367964i32);
    assert(mix_pass(c12, 13) == mix_pass(c13, 14));
    let c14 = c13.update(14, 379798136i32);
    assert(mix_pass(c13, 14) == mix_pass(c14, 15));
    let c15 = c14.update(15, 1383569120i32);
    assert(mix_pass(c14, 15) == mix_pass(c15, 16));
    let c16 = c15.update(16, 244424536i32);
    assert(mix_pass(c15, 16) == mix_pass(c16, 17));
    let c17 = c16.update(17, 419394178i32);
    assert(mix_pass(c16, 17) == mix_pass(c17, 18));
    let c18 = c17.update(18, 1165279119i32);
    assert(mix_pass(c17, 18) == mix_pass(c18, 19));
    let c19 = c18.update(19, 2139782125i32);
    assert(mix_pass(c18, 19) == mix_pass(c19, 20));
    let c20 = c19.update(20, 587616403i32);
    assert(mix_pass(c19, 20) == mix_pass(c20, 21));
    let c21 = c20.update(21, 1160099460i32);
    assert(mix_pass(c20, 21) == mix_pass(c21, 22));
    let c22 = c21.update(22, 659838180i32);
    assert(mix_pass(c21, 22) == mix_pass(c22, 23));
    assert(c22 =~= random_1234_state(12));
}

proof fn lemma_random_1234_chunk12()
    ensures
        mix_pass(random_1234_state(12), 23) == mix_pass(random_1234_state(13), 34),
{
    let c22 = random_1234_state(12);
    let c23 = c22.update(23, 91452229i32);
    assert(mix_pass(c22, 23) == mix_pass(c23, 24));
    let c24 = c23.update(24, 1775203891i32);
    assert(mix_pass(c23, 24) == mix_pass(c24, 25));
    let c25 = c24.update(25, 1711413131i32);
    assert(mix_pass(c24, 25) == mix_pass(c25, 26));
    let c26 = c25.update(26, 4388394i32);
    assert(mix_pass(c25, 26) == mix_pass(c26, 27));
    let c27 = c26.update(27, 1107535578i32);
    assert(mix_pass(c26, 27) == mix_pass(c27, 28));
    let c28 = c27.update(28, 1484459389i32);
    assert(mix_pass(c27, 28) == mix_pass(c28, 29));
    let c29 = c28.update(29, 155116882i32);
    assert(mix_pass(c28, 29) == mix_pass(c29, 30));
    let c30 = c29.update(30, 734264835i32);
    assert(mix_pass(c29, 30) == mix_pass(c30, 31));
    let c31 = c30.update(31, 537283046i32);
    assert(mix_pass(c30, 31) == mix_pass(c31, 32));
    let c32 = c31.update(32, 2018332371i32);
    assert(mix_pass(c31, 32) == mix_pass(c32, 33));
    let c33 = c32.update(33, 923886104i32);
    assert(mix_pass(c32, 33) == mix_pass(c33, 34));
    assert(c33 =~= random_1234_state(13));
}

proof fn lemma_random_1234_chunk13()
    ensures
        mix_pass(random_1234_state(13), 34) == mix_pass(random_1234_state(14), 45),
{
    let c33 = random_1234_state(13);
    let c34 = c33.update(34, 12419987i32);
    assert(mix_pass(c33, 34) == mix_pass(c34, 35));
    let c35 = c34.update(35, 780786088i32);
    assert(mix_pass(c34, 35) == mix_pass(c35, 36));
    let c36 = c35.update(36, 1154178471i32);
    assert(mix_pass(c35, 36) == mix_pass(c36, 37));
    let c37 = c36.update(37, 994434429i32);
    assert(mix_pass(c36, 37) == mix_pass(c37, 38));
    let c38 = c37.update(38, 1481758295i32);
    assert(mix_pass(c37, 38) == mix_pass(c38, 39));
    let c39 = c38.update(39, 1917364985i32);
    assert(mix_pass(c38, 39) == mix_pass(c39, 40));
    let c40 = c39.update(40, 1711601275i32);
    assert(mix_pass(c39, 40) == mix_pass(c40, 41));
    let c41 = c40.update(41, 1143887338i32);
    assert(mix_pass(c40, 41) == mix_pass(c41, 42));
    let c42 = c41.update(42, 329143205i32);
    assert(mix_pass(c41, 42) == mix_pass(c42, 43));
    let c43 = c42.update(43, 964675859i32);
    assert(mix_pass(c42, 43) == mix_pass(c43, 44));
    let c44 = c43.update(44, 12287818i32);
    assert(mix_pass(c43, 44) == mix_pass(c44, 45));
    assert(c44 =~= random_1234_state(14));
}

proof fn lemma_random_1234_chunk14()
    ensures
        mix_pass(random_1234_state(14), 45) == mix_pass(random_1234_state(15), 56),
{
    let c44 = random_1234_state(14);
    let c45 = c44.update(45, 1683934712i32);
    assert(mix_pass(c44, 45) == mix_pass(c45, 46));
    let c46 = c45.update(46, 1629651146i32);
    assert(mix_pass(c45, 46) == mix_pass(c46, 47));
    let c47 = c46.update(47, 1915609066i32);
    assert(mix_pass(c46, 47) == mix_pass(c47, 48));
    let c48 = c47.update(48, 671195005i32);
    assert(mix_pass(c47, 48) == mix_pass(c48, 49));
    let c49 = c48.update(49, 989292433i32);
    assert(mix_pass(c48, 49) == mix_pass(c49, 50));
    let c50 = c49.update(50, 728304913i32);
    assert(mix_pass(c49, 50) == mix_pass(c50, 51));
    let c51 = c50.update(51, 1070081618i32);
    assert(mix_pass(c50, 51) == mix_pass(c51, 52));
    let c52 = c51.update(52, 1481210249i32);
    assert(mix_pass(c51, 52) == mix_pass(c52, 53));
    let c53 = c52.update(53, 1979513121i32);
    assert(mix_pass(c52, 53) == mix_pass(c53, 54));
    let c54 = c53.update(54, 575769301i32);
    assert(mix_pass(c53, 54) == mix_pass(c54, 55));
    let c55 = c54.update(55, 1648261072i32);
    assert(mix_pass(c54, 55) == mix_pass(c55, 56));
    assert(c55 =~= random_1234_state(15));
}

proof fn lemma_random_1234_chunk15()
    ensures
        mix_pass(random_1234_state(15), 1) == mix_pass(random_1234_state(16), 12),
{
    let c0 = random_1234_state(15);
    let c1 = c0.update(1, 1684828583i32);
    assert(mix_pass(c0, 1) == mix_pass(c1, 2));
    let c2 = c1.update(2, 1439612380i32);
    assert(mix_pass(c1, 2) == mix_pass(c2, 3));
    let c3 = c2.update(3, 812425910i32);
    assert(mix_pass(c2, 3) == mix_pass(c3, 4));
    let c4 = c3.update(4, 2059687920i32);
    assert(mix_pass(c3, 4) == mix_pass(c4, 5));
    let c5 = c4.update(5, 1441192973i32);
    assert(mix_pass(c4, 5) == mix_pass(c5, 6));
    let c6 = c5.update(6, 185111778i32);
    assert(mix_pass(c5, 6) == mix_pass(c6, 7));
    let c7 = c6.update(7, 1159920840i32);
    assert(mix_pass(c6, 7) == mix_pass(c7, 8));
    let c8 = c7.update(8, 1979668749i32);
    assert(mix_pass(c7, 8) == mix_pass(c8, 9));
    let c9 = c8.update(9, 1932042469i32);
    assert(mix_pass(c8, 9) == mix_pass(c9, 10));
    let c10 = c9.update(10, 48577436i32);
    assert(mix_pass(c9, 10) == mix_pass(c10, 11));
    let c11 = c10.update(11, 934975546i32);
    assert(mix_pass(c10, 11) == mix_pass(c11, 12));
    assert(c11 =~= random_1234_state(16));
}

proof fn lemma_random_1234_chunk16()
    ensures
        mix_pass(random_1234_state(16), 12) == mix_pass(random_1234_state(17), 23),
{
    let c11 = random_1234_state(16);
    let c12 = c11.update(12, 857878187i32);
    assert(mix_pass(c11, 12) == mix_pass(c12, 13));
    let c13 = c12.update(13, 1998080146i32);
    assert(mix_pass(c12, 13) == mix_pass(c13, 14));
    let c14 = c13.update(14, 843347071i32);
    assert(mix_pass(c13, 14) == mix_pass(c14, 15));
    let c15 = c14.update(15, 1901401621i32);
    assert(mix_pass(c14, 15) == mix_pass(c15, 16));
    let c16 = c15.update(16, 476299117i32);
    assert(mix_pass(c15, 16) == mix_pass(c16, 17));
    let c17 = c16.update(17, 1895682820i32);
    assert(mix_pass(c16, 17) == mix_pass(c17, 18));
    let c18 = c17.update(18, 175986686i32);
    assert(mix_pass(c17, 18) == mix_pass(c18, 19));
    let c19 = c18.update(19, 1411477212i32);
    assert(mix_pass(c18, 19) == mix_pass(c19, 20));
    let c20 = c19.update(20, 1665018432i32);
    assert(mix_pass(c19, 20) == mix_pass(c20, 21));
    let c21 = c20.update(21, 1826372858i32);
    assert(mix_pass(c20, 21) == mix_pass(c21, 22));
    let c22 = c21.update(22, 827808706i32);
    assert(mix_pass(c21, 22) == mix_pass(c22, 23));
    assert(c22 =~= random_1234_state(17));
}

proof fn lemma_random_1234_chunk17()
    ensures
        mix_pass(random_1234_state(17), 23) == mix_pass(random_1234_state(18), 34),
{
    let c22 = random_1234_state(17);
    let c23 = c22.update(23, 1663166575i32);
    assert(mix_pass(c22, 23) == mix_pass(c23, 24));
    let c24 = c23.update(24, 126942819i32);
    assert(mix_pass(c23, 24) == mix_pass(c24, 25));
    let c25 = c24.update(25, 26584548i32);
    assert(mix_pass(c24, 25) == mix_pass(c25, 26));
    let c26 = c25.update(26, 712259661i32);
    assert(mix_pass(c25, 26) == mix_pass(c26, 27));
    let c27 = c26.update(27, 295109668i32);
    assert(mix_pass(c26, 27) == mix_pass(c27, 28));
    let c28 = c27.update(28, 1572255116i32);
    assert(mix_pass(c27, 28) == mix_pass(c28, 29));
    let c29 = c28.update(29, 861407556i32);
    assert(mix_pass(c28, 29) == mix_pass(c29, 30));
    let c30 = c29.update(30, 549153057i32);
    assert(mix_pass(c29, 30) == mix_pass(c30, 31));
    let c31 = c30.update(31, 1524845853i32);
    assert(mix_pass(c30, 31) == mix_pass(c31, 32));
    let c32 = c31.update(32, 38663622i32);
    assert(mix_pass(c31, 32) == mix_pass(c32, 33));
    let c33 = c32.update(33, 1139327282i32);
    assert(mix_pass(c32, 33) == mix_pass(c33, 34));
    assert(c33 =~= random_1234_state(18));
}

proof fn lemma_random_1234_chunk18()
    ensures
        mix_pass(random_1234_state(18), 34) == mix_pass(random_1234_state(19), 45),
{
    let c33 = random_1234_state(18);
    let c34 = c33.update(34, 2111326198i32);
    assert(mix_pass(c33, 34) == mix_pass(c34, 35));
    let c35 = c34.update(35, 1993294189i32);
    assert(mix_pass(c34, 35) == mix_pass(c35, 36));
    let c36 = c35.update(36, 296300284i32);
    assert(mix_pass(c35, 36) == mix_pass(c36, 37));
    let c37 = c36.update(37, 1143837930i32);
    assert(mix_pass(c36, 37) == mix_pass(c37, 38));
    let c38 = c37.update(38, 638411224i32);
    assert(mix_pass(c37, 38) == mix_pass(c38, 39));
    let c39 = c38.update(39, 15963364i32);
    assert(mix_pass(c38, 39) == mix_pass(c39, 40));
    let c40 = c39.update(40, 1235302158i32);
    assert(mix_pass(c39, 40) == mix_pass(c40, 41));
    let c41 = c40.update(41, 1395688165i32);
    assert(mix_pass(c40, 41) == mix_pass(c41, 42));
    let c42 = c41.update(42, 153156519i32);
    assert(mix_pass(c41, 42) == mix_pass(c42, 43));
    let c43 = c42.update(43, 1700682294i32);
    assert(mix_pass(c42, 43) == mix_pass(c43, 44));
    let c44 = c43.update(44, 494753033i32);
    assert(mix_pass(c43, 44) == mix_pass(c44, 45));
    assert(c44 =~= random_1234_state(19));
}

proof fn lemma_random_1234_chunk19()
    ensures
        mix_pass(random_1234_state(19), 45) == mix_pass(random_1234_state(20), 56),
{
    let c44 = random_1234_state(19);
    let c45 = c44.update(45, 2005045501i32);
    assert(mix_pass(c44, 45) == mix_pass(c45, 46));
    let c46 = c45.update(46, 801842440i32);
    assert(mix_pass(c45, 46) == mix_pass(c46, 47));
    let c47 = c46.update(47, 252442491i32);
    assert(mix_pass(c46, 47) == mix_pass(c47, 48));
    let c48 = c47.update(48, 544252186i32);
    assert(mix_pass(c47, 48) == mix_pass(c48, 49));
    let c49 = c48.update(49, 962707885i32);
    assert(mix_pass(c48, 49) == mix_pass(c49, 50));
    let c50 = c49.update(50, 16045252i32);
    assert(mix_pass(c49, 50) == mix_pass(c50, 51));
    let c51 = c50.update(51, 774971950i32);
    assert(mix_pass(c50, 51) == mix_pass(c51, 52));
    let c52 = c51.update(52, 2056438780i32);
    assert(mix_pass(c51, 52) == mix_pass(c52, 53));
    let c53 = c52.update(53, 1118105565i32);
    assert(mix_pass(c52, 53) == mix_pass(c53, 54));
    let c54 = c53.update(54, 26616244i32);
    assert(mix_pass(c53, 54) == mix_pass(c54, 55));
    let c55 = c54.update(55, 123415219i32);
    assert(mix_pass(c54, 55) == mix_pass(c55, 56));
    assert(c55 =~= random_1234_state(20));
}

proof fn lemma_random_1234_round1()
    ensures
        mix_pass(random_1234_state(0), 1) == random_1234_state(5),
{
    lemma_random_1234_chunk0();
    lemma_random_1234_chunk1();
    lemma_random_1234_chunk2();
    lemma_random_1234_chunk3();
    lemma_random_1234_chunk4();
    assert(mix_pass(random_1234_state(5), 56) == random_1234_state(5));
}

proof fn lemma_random_1234_round2()
    ensures
        mix_pass(random_1234_state(5), 1) == random_1234_state(10),
{
    lemma_random_1234_chunk5();
    lemma_random_1234_chunk6();
    lemma_random_1234_chunk7();
    lemma_random_1234_chunk8();
    lemma_random_1234_chunk9();
    assert(mix_pass(random_1234_state(10), 56) == random_1234_state(10));
}

proof fn lemma_random_1234_round3()
    ensures
        mix_pass(random_1234_state(10), 1) == random_1234_state(15),
{
    lemma_random_1234_chunk10();
    lemma_random_1234_chunk11();
    lemma_random_1234_chunk12();
    lemma_random_1234_chunk13();
    lemma_random_1234_chunk14();
    assert(mix_pass(random_1234_state(15), 56) == random_1234_state(15));
}

proof fn lemma_random_1234_round4()
    ensures
        mix_pass(random_1234_state(15), 1) == random_1234_state(20),
{
    lemma_random_1234_chunk15();
    lemma_random_1234_chunk16();
    lemma_random_1234_chunk17();
    lemma_random_1234_chunk18();
    lemma_random_1234_chunk19();
    assert(mix_pass(random_1234_state(20), 56) == random_1234_state(20));
}

/// The generator is the .NET Framework `System.Random`: for seed 1234 the
/// table starts with the bytes `new Random(1234).NextBytes` gives, which
/// pins the seeding, the four mixing rounds and the draws.
pub proof fn lemma_af_table_known_answer()
    ensures
        af_table(1234, 9) == seq![229u8, 108u8, 83u8, 12u8, 192u8, 189u8, 59u8, 201u8, 196u8],
{
    lemma_random_1234_seeded();
    lemma_random_1234_round1();
    lemma_random_1234_round2();
    lemma_random_1234_round3();
    lemma_random_1234_round4();
    assert(seed_state(1234) == mixed(random_1234_state(0), 4));
    assert(mixed(random_1234_state(0), 4) == mixed(random_1234_state(5), 3));
    assert(mixed(random_1234_state(5), 3) == mixed(random_1234_state(10), 2));
    assert(mixed(random_1234_state(10), 2) == mixed(random_1234_state(15), 1));
    assert(mixed(random_1234_state(15), 1) == mixed(random_1234_state(20), 0));
    let t0 = random_1234_state(20);
    let t1 = t0.update(1, 857019877i32);
    assert(table_from(t0, 0, 21, 0, 9) == seq![(857019877i32) as u8] + table_from(t1, 1, 22, 1, 9));
    let t2 = t1.update(2, 1923929452i32);
    assert(table_from(t1, 1, 22, 1, 9) == seq![(1923929452i32) as u8] + table_from(t2, 2, 23, 2, 9));
    let t3 = t2.update(3, 685483091i32);
    assert(table_from(t2, 2, 23, 2, 9) == seq![(685483091i32) as u8] + table_from(t3, 3, 24, 3, 9));
    let t4 = t3.update(4, 2033103372i32);
    assert(table_from(t3, 3, 24, 3, 9) == seq![(2033103372i32) as u8] + table_from(t4, 4, 25, 4, 9));
    let t5 = t4.update(5, 728933312i32);
    assert(table_from(t4, 4, 25, 4, 9) == seq![(728933312i32) as u8] + table_from(t5, 5, 26, 5, 9));
    let t6 = t5.update(6, 2037485757i32);
    assert(table_from(t5, 5, 26, 5, 9) == seq![(2037485757i32) as u8] + table_from(t6, 6, 27, 6, 9));
    let t7 = t6.update(7, 1735149371i32);
    assert(table_from(t6, 6, 27, 6, 9) == seq![(1735149371i32) as u8] + table_from(t7, 7, 28, 7, 9));
    let t8 = t7.update(8, 1118261193i32);
    assert(table_from(t7, 7, 28, 7, 9) == seq![(1118261193i32) as u8] + table_from(t8, 8, 29, 8, 9));
    let t9 = t8.update(9, 1382889412i32);
    assert(table_from(t8, 8, 29, 8, 9) == seq![(1382889412i32) as u8] + table_from(t9, 9, 30, 9, 9));
    assert(table_from(t9, 9, 30, 9, 9) == Seq::<u8>::empty());
    assert((857019877i32) as u8 == 229u8 && (1923929452i32) as u8 == 108u8 && (685483091i32) as u8 == 83u8 && (2033103372i32) as u8 == 12u8 && (728933312i32) as u8 == 192u8 && (2037485757i32) as u8 == 189u8 && (1735149371i32) as u8 == 59u8 && (1118261193i32) as u8 == 201u8 && (1382889412i32) as u8 == 196u8) by (bit_vector);
    assert(af_table(1234, 9) =~= seq![229u8, 108u8, 83u8, 12u8, 192u8, 189u8, 59u8, 201u8, 196u8]);
}

fn fold_pos_exec(x: i32) -> (r: i32)
    ensures
        r == fold_pos(x),
{
    if x < 0 {
        x.wrapping_add(i32::MAX)
    } else {
        x
    }
}

fn seed_array(seed: i32) -> (arr: [i32; 56])
    ensures
        arr@ == seed_state(seed),
{
    let mut arr = [0i32; 56];
    let sub: i32 = if seed == i32::MIN {
        i32::MAX
    } else if seed < 0 {
        -seed
    } else {
        seed
    };
    let mut mj = 161_803_398i32.wrapping_sub(sub);
    arr[55] = mj;
    let ghost a0 = arr@;
    assert(a0 =~= Seq::new(56, |i: int| 0i32).update(55, mj));
    let mut mk = 1i32;
    let mut i: usize = 1;
    while i < 55
        invariant
            1 <= i <= 55,
            arr@.len() == 56,
            seed_pass(a0, isub(161_803_398, sub), 1, 1) == seed_pass(arr@, mj, mk, i as nat),
        decreases 55 - i,
    {
        let ii = (21 * i) % 55;
        arr[ii] = mk;
        let next = fold_pos_exec(mj.wrapping_sub(mk));
        mj = mk;
        mk = next;
        i = i + 1;
    }
    let ghost after_seed = arr@;
    let mut round: usize = 1;
    while round < 5
        invariant
            1 <= round <= 5,
            arr@.len() == 56,
            mixed(after_seed, 4) == mixed(arr@, (5 - round) as nat),
        decreases 5 - round,
    {
        let ghost start = arr@;
        let mut i: usize = 1;
        while i < 56
            invariant
                1 <= i <= 56,
                arr@.len() == 56,
                mix_pass(start, 1) == mix_pass(arr@, i as nat),
            decreases 56 - i,
        {
            let idx = 1 + (i + 30) % 55;
            arr[i] = fold_pos_exec(arr[i].wrapping_sub(arr[idx]));
            i = i + 1;
        }
        round = round + 1;
    }
    arr
}

fn af_table_exec(seed: i32, len: usize) -> (t: Vec<u8>)
    ensures
        t@ == af_table(seed, len as nat),
{
    let mut arr = seed_array(seed);
    let mut inext: usize = 0;
    let mut inextp: usize = 21;
    let mut t: Vec<u8> = Vec::new();
    let mut k: usize = 0;
    while k < len
        invariant
            0 <= k <= len,
            arr@.len() == 56,
            inext < 56,
            inextp < 56,
            af_table(seed, len as nat) == t@ + table_from(arr@, inext as nat, inextp as nat, k as nat, len as nat),
        decreases len - k,
    {
        let a = if inext + 1 >= 56 { 1 } else { inext + 1 };
        let b = if inextp + 1 >= 56 { 1 } else { inextp + 1 };
        let r = arr[a].wrapping_sub(arr[b]);
        let r = if r == i32::MAX { r.wrapping_sub(1) } else { r };
        let v = fold_pos_exec(r);
        arr[a] = v;
        inext = a;
        inextp = b;
        let ghost t0 = t@;
        t.push(v as u8);
        assert(t@ =~= t0 + seq![v as u8]);
        k = k + 1;
    }
    assert(t@ + table_from(arr@, inext as nat, inextp as nat, k as nat, len as nat) =~= t@);
    t
}


// ArcticFox

/// Key as stored in the image: little-endian bytes XORed with `kk`.
pub open spec fn write_key(key: i32, kk: u8) -> Seq<u8> {
    let k = key as u32;
    seq![(k as u8) ^ kk, ((k >> 8u32) as u8) ^ kk, ((k >> 16u32) as u8) ^ kk, ((k >> 24u32) as u8) ^ kk]
}

/// Key read back from its 4 stored bytes.
pub open spec fn read_key(b: Seq<u8>, kk: u8) -> i32 {
    (((b[0] ^ kk) as u32) | (((b[1] ^ kk) as u32) << 8u32) | (((b[2] ^ kk) as u32) << 16u32) | (((b[3]
        ^ kk) as u32) << 24u32)) as i32
}

/// XOR of `d` with the cyclic table.
pub open spec fn xor_table(d: Seq<u8>, t: Seq<u8>) -> Seq<u8> {
    Seq::new(d.len(), |i: int| d[i] ^ t[i % (t.len() as int)])
}

/// ArcticFox ciphertext of `d` under `key`: the stored key, then `d` XOR
/// the table.
pub open spec fn af_encrypt(d: Seq<u8>, key: i32, kk: u8, tlen: nat) -> Seq<u8> {
    write_key(key, kk) + xor_table(d, af_table(key, tlen))
}

/// ArcticFox decryption: None for 4 bytes or fewer.
pub open spec fn af_decrypt(d: Seq<u8>, kk: u8, tlen: nat) -> Option<Seq<u8>> {
    if d.len() <= 4 {
        None
    } else {
        Some(xor_table(d.subrange(4, d.len() as int), af_table(read_key(d.subrange(0, 4), kk), tlen)))
    }
}

fn write_key_exec(key: i32, kk: u8) -> (b: [u8; 4])
    ensures
        b@ == write_key(key, kk),
{
    let k = key as u32;
    let b = [(k as u8) ^ kk, ((k >> 8u32) as u8) ^ kk, ((k >> 16u32) as u8) ^ kk, ((k >> 24u32) as u8) ^ kk];
    assert(b@ =~= write_key(key, kk));
    b
}

fn read_key_exec(data: &[u8], kk: u8) -> (k: i32)
    requires
        data@.len() >= 4,
    ensures
        k == read_key(data@.subrange(0, 4), kk),
{
    (((data[0] ^ kk) as u32) | (((data[1] ^ kk) as u32) << 8u32) | (((data[2] ^ kk) as u32) << 16u32)
        | (((data[3] ^ kk) as u32) << 24u32)) as i32
}

fn xor_table_exec(data: &[u8], from: usize, table: &Vec<u8>) -> (out: Vec<u8>)
    requires
        from <= data@.len(),
        table@.len() > 0,
    ensures
        out@ == xor_table(data@.subrange(from as int, data@.len() as int), table@),
{
    let ghost d = data@.subrange(from as int, data@.len() as int);
    let dlen = data.len();
    let n = dlen - from;
    let tl = table.len();
    let mut out: Vec<u8> = Vec::new();
    let mut i: usize = 0;
    while i < n
        invariant
            0 <= i <= n,
            n == d.len(),
            from + n == dlen,
            dlen == data@.len(),
            d == data@.subrange(from as int, data@.len() as int),
            tl == table@.len(),
            tl > 0,
            out@ == xor_table(d, table@).subrange(0, i as int),
        decreases n - i,
    {
        out.push(data[from + i] ^ table[i % tl]);
        assert(out@ =~= xor_table(d, table@).subrange(0, i + 1));
        i = i + 1;
    }
    assert(out@ =~= xor_table(d, table@));
    out
}

fn encrypt_arcticfox(data: &[u8], key: i32, key_key: u8, table_len: usize) -> (out: Vec<u8>)
    requires
        table_len > 0,
    ensures
        out@ == af_encrypt(data@, key, key_key, table_len as nat),
{
    let table = af_table_exec(key, table_len);
    let key_bytes = write_key_exec(key, key_key);
    let body = xor_table_exec(data, 0, &table);
    assert(data@.subrange(0, data@.len() as int) =~= data@);
    let mut out: Vec<u8> = Vec::new();
    out.push(key_bytes[0]);
    out.push(key_bytes[1]);
    out.push(key_bytes[2]);
    out.push(key_bytes[3]);
    let mut i: usize = 0;
    while i < body.len()
        invariant
            0 <= i <= body@.len(),
            out@ == key_bytes@ + body@.subrange(0, i as int),
        decreases body@.len() - i,
    {
        out.push(body[i]);
        assert(out@ =~= key_bytes@ + body@.subrange(0, i + 1));
        i = i + 1;
    }
    assert(body@.subrange(0, body@.len() as int) =~= body@);
    out
}

fn decrypt_arcticfox(data: &[u8], key_key: u8, table_len: usize) -> (r: Result<Vec<u8>, FirmwareError>)
    requires
        table_len > 0,
    ensures
        match af_decrypt(data@, key_key, table_len as nat) {
            Some(p) => r matches Ok(v) && v@ == p,
            None => r matches Err(FirmwareError::UnknownEncryption),
        },
{
    if data.len() <= 4 {
        return Err(FirmwareError::UnknownEncryption);
    }
    let key = read_key_exec(data, key_key);
    let table = af_table_exec(key, table_len);
    Ok(xor_table_exec(data, 4, &table))
}

/// A stored key reads back as itself.
pub proof fn lemma_key_roundtrip(key: i32, kk: u8)
    ensures
        read_key(write_key(key, kk), kk) == key,
{
    let k = key as u32;
    let b0 = (k as u8) ^ kk;
    let b1 = ((k >> 8u32) as u8) ^ kk;
    let b2 = ((k >> 16u32) as u8) ^ kk;
    let b3 = ((k >> 24u32) as u8) ^ kk;
    assert((((b0 ^ kk) as u32) | (((b1 ^ kk) as u32) << 8u32) | (((b2 ^ kk) as u32) << 16u32) | (((b3
        ^ kk) as u32) << 24u32)) == k) by (bit_vector)
        requires
            b0 == (k as u8) ^ kk,
            b1 == ((k >> 8u32) as u8) ^ kk,
            b2 == ((k >> 16u32) as u8) ^ kk,
            b3 == ((k >> 24u32) as u8) ^ kk,
    ;
    assert(((key as u32) as i32) == key) by (bit_vector);
}

/// ArcticFox decryption undoes ArcticFox encryption, for any key.
pub proof fn lemma_arcticfox_roundtrip(d: Seq<u8>, key: i32, kk: u8, tlen: nat)
    requires
        tlen > 0,
        d.len() > 0,
    ensures
        af_decrypt(af_encrypt(d, key, kk, tlen), kk, tlen) == Some(d),
{
    let c = af_encrypt(d, key, kk, tlen);
    assert(c.subrange(0, 4) =~= write_key(key, kk));
    lemma_key_roundtrip(key, kk);
    let t = af_table(key, tlen);
    lemma_table_len(seed_state(key), 0, 21, 0, tlen);
    assert(c.subrange(4, c.len() as int) =~= xor_table(d, t));
    assert forall|i: int| 0 <= i < d.len() implies #[trigger] xor_table(xor_table(d, t), t)[i] == d[i] by {
        lemma_xor_twice(d[i], t[i % (t.len() as int)]);
    }
    assert(xor_table(xor_table(d, t), t) =~= d);
}


/// The generator yields exactly the requested number of bytes.
pub proof fn lemma_table_len(arr: Seq<i32>, inext: nat, inextp: nat, k: nat, len: nat)
    requires
        k <= len,
    ensures
        table_from(arr, inext, inextp, k, len).len() == len - k,
    decreases len - k,
{
    if k < len {
        let a = next_slot(inext);
        let b = next_slot(inextp);
        lemma_table_len(arr.update(a as int, sample_at(arr, a, b)), a, b, k + 1, len);
    }
}


/// The scheme detected for `d` with the plaintext it yields: the first of
/// plaintext, Joyetech, ArcticFox, ArcticFox2 and VandalProof whose result
/// holds the marker; None when no scheme does.
pub open spec fn detect(d: Seq<u8>) -> Option<(Seq<u8>, EncryptionType)> {
    if has_marker(d) {
        Some((d, EncryptionType::Plaintext))
    } else if d.len() >= 8 && has_marker(joyetech(d)) {
        Some((joyetech(d), EncryptionType::Joyetech))
    } else if d.len() >= 13 && (af_decrypt(d, 0x17, 9) matches Some(p) && has_marker(p)) {
        Some((af_decrypt(d, 0x17, 9)->0, EncryptionType::ArcticFox))
    } else if d.len() >= 15 && (af_decrypt(d, 0x19, 11) matches Some(p) && has_marker(p)) {
        Some((af_decrypt(d, 0x19, 11)->0, EncryptionType::ArcticFox2))
    } else if vp_decrypt(d) matches Some(p) && has_marker(p) {
        Some((vp_decrypt(d)->0, EncryptionType::VandalProof))
    } else {
        None
    }
}

/// Try each supported scheme and return the first plausible plaintext, one
/// holding the `Joyetech APROM` marker. An image where none does is
/// reported as unsupported.
pub fn decrypt(data: &[u8]) -> (r: Result<(Vec<u8>, EncryptionType), FirmwareError>)
    ensures
        match detect(data@) {
            Some((p, e)) => r matches Ok((v, e2)) && v@ == p && e2 == e,
            None => r matches Err(FirmwareError::UnsupportedEncryption(_)),
        },
{
    if contains_marker(data) {
        let mut copy: Vec<u8> = Vec::new();
        let mut i: usize = 0;
        while i < data.len()
            invariant
                0 <= i <= data@.len(),
                copy@ == data@.subrange(0, i as int),
            decreases data@.len() - i,
        {
            copy.push(data[i]);
            assert(copy@ =~= data@.subrange(0, i + 1));
            i = i + 1;
        }
        assert(copy@ =~= data@);
        return Ok((copy, EncryptionType::Plaintext));
    }
    if data.len() >= JOYETECH_MIN_LEN {
        let plain = encrypt_joyetech(data);
        if contains_marker(plain.as_slice()) {
            return Ok((plain, EncryptionType::Joyetech));
        }
    }
    if data.len() >= 4 + ARCTICFOX_TABLE_LEN {
        match decrypt_arcticfox(data, ARCTICFOX_KEY_KEY, ARCTICFOX_TABLE_LEN) {
            Ok(plain) => {
                if contains_marker(plain.as_slice()) {
                    return Ok((plain, EncryptionType::ArcticFox));
                }
            },
            Err(_) => {},
        }
    }
    if data.len() >= 4 + ARCTICFOX2_TABLE_LEN {
        match decrypt_arcticfox(data, ARCTICFOX2_KEY_KEY, ARCTICFOX2_TABLE_LEN) {
            Ok(plain) => {
                if contains_marker(plain.as_slice()) {
                    return Ok((plain, EncryptionType::ArcticFox2));
                }
            },
            Err(_) => {},
        }
    }
    match decrypt_vandalproof(data) {
        Some(plain) => {
            if contains_marker(plain.as_slice()) {
                return Ok((plain, EncryptionType::VandalProof));
            }
        },
        None => {},
    }
    Err(
        FirmwareError::UnsupportedEncryption(
            "This firmware uses an unsupported encryption. Cloudy AF can open plaintext, Joyetech, ArcticFox and VandalProof images.".to_owned(),
        ),
    )
}

/// Ciphertext of `d` under scheme `enc` with key `key`: the ArcticFox key,
/// or the seed of the generator whose first 16 bytes are the VandalProof IV.
pub open spec fn encrypt_spec(d: Seq<u8>, enc: EncryptionType, key: i32) -> Seq<u8> {
    match enc {
        EncryptionType::Plaintext => d,
        EncryptionType::Joyetech => joyetech(d),
        EncryptionType::ArcticFox => af_encrypt(d, key, 0x17, 9),
        EncryptionType::ArcticFox2 => af_encrypt(d, key, 0x19, 11),
        EncryptionType::VandalProof => vp_encrypt(d, af_table(key, 16)),
    }
}

proof fn lemma_key_bytes(k: u32, kk: u8)
    by (bit_vector)
    ensures
        (((k as u8) ^ kk) ^ kk) + 256 * ((((k >> 8u32) as u8) ^ kk) ^ kk) + 65536 * ((((k >> 16u32) as u8) ^ kk) ^ kk)
            + 16777216 * ((((k >> 24u32) as u8) ^ kk) ^ kk) == k,
{
}

/// The ArcticFox layouts: the key stored little-endian in the first four
/// bytes, each XORed with 0x17 (ArcticFox) or 0x19 (ArcticFox2), then the
/// image XORed with the generator's first 9 (or 11) bytes, cyclically.
pub proof fn lemma_arcticfox_layout(d: Seq<u8>, key: i32)
    ensures
        ({
            let c = encrypt_spec(d, EncryptionType::ArcticFox, key);
            &&& c.len() == d.len() + 4
            &&& (c[0] ^ 0x17u8) + 256 * (c[1] ^ 0x17u8) + 65536 * (c[2] ^ 0x17u8) + 16777216 * (c[3] ^ 0x17u8)
                == key as u32
            &&& forall|j: int| 0 <= j < d.len() ==> #[trigger] c[4 + j] == d[j] ^ af_table(key, 9)[j % 9]
        }),
        ({
            let c = encrypt_spec(d, EncryptionType::ArcticFox2, key);
            &&& c.len() == d.len() + 4
            &&& (c[0] ^ 0x19u8) + 256 * (c[1] ^ 0x19u8) + 65536 * (c[2] ^ 0x19u8) + 16777216 * (c[3] ^ 0x19u8)
                == key as u32
            &&& forall|j: int| 0 <= j < d.len() ==> #[trigger] c[4 + j] == d[j] ^ af_table(key, 11)[j % 11]
        }),
{
    lemma_key_bytes(key as u32, 0x17);
    lemma_key_bytes(key as u32, 0x19);
    lemma_table_len(seed_state(key), 0, 21, 0, 9);
    lemma_table_len(seed_state(key), 0, 21, 0, 11);
    let c = encrypt_spec(d, EncryptionType::ArcticFox, key);
    assert forall|j: int| 0 <= j < d.len() implies #[trigger] c[4 + j] == d[j] ^ af_table(key, 9)[j % 9] by {
        assert(c[4 + j] == xor_table(d, af_table(key, 9))[j]);
    }
    let c2 = encrypt_spec(d, EncryptionType::ArcticFox2, key);
    assert forall|j: int| 0 <= j < d.len() implies #[trigger] c2[4 + j] == d[j] ^ af_table(key, 11)[j % 11] by {
        assert(c2[4 + j] == xor_table(d, af_table(key, 11))[j]);
    }
}

/// The generator seeds from the seed's magnitude: `Random(s)` and
/// `Random(-s)` give the same bytes, and `Random(i32::MIN)` gives those of
/// `Random(i32::MAX)`.
pub proof fn lemma_af_table_seed_sign(seed: i32, len: nat)
    ensures
        seed != i32::MIN ==> af_table(seed, len) == af_table((-seed) as i32, len),
        af_table(i32::MIN, len) == af_table(i32::MAX, len),
{
}

fn vandalproof_iv(key: i32) -> (iv: [u8; 16])
    ensures
        iv@ == af_table(key, 16),
{
    let t = af_table_exec(key, 16);
    proof {
        lemma_table_len(seed_state(key), 0, 21, 0, 16);
    }
    let mut iv = [0u8; 16];
    let mut i: usize = 0;
    while i < 16
        invariant
            0 <= i <= 16,
            t@ == af_table(key, 16),
            t@.len() == 16,
            forall|k: int| 0 <= k < i ==> iv@[k] == t@[k],
        decreases 16 - i,
    {
        iv[i] = t[i];
        i = i + 1;
    }
    assert(iv@ =~= t@);
    iv
}

/// Encrypt `data` with scheme `enc`, using `key` as the ArcticFox key.
pub fn encrypt_with_key(data: &[u8], enc: EncryptionType, key: i32) -> (r: Result<Vec<u8>, FirmwareError>)
    requires
        data@.len() + 32 <= usize::MAX,
    ensures
        r matches Ok(v) && v@ == encrypt_spec(data@, enc, key),
{
    match enc {
        EncryptionType::Plaintext => {
            let mut copy: Vec<u8> = Vec::new();
            let mut i: usize = 0;
            while i < data.len()
                invariant
                    0 <= i <= data@.len(),
                    copy@ == data@.subrange(0, i as int),
                decreases data@.len() - i,
            {
                copy.push(data[i]);
                assert(copy@ =~= data@.subrange(0, i + 1));
                i = i + 1;
            }
            assert(copy@ =~= data@);
            Ok(copy)
        },
        EncryptionType::Joyetech => Ok(encrypt_joyetech(data)),
        EncryptionType::ArcticFox => Ok(encrypt_arcticfox(data, key, ARCTICFOX_KEY_KEY, ARCTICFOX_TABLE_LEN)),
        EncryptionType::ArcticFox2 => Ok(encrypt_arcticfox(data, key, ARCTICFOX2_KEY_KEY, ARCTICFOX2_TABLE_LEN)),
        EncryptionType::VandalProof => {
            let iv = vandalproof_iv(key);
            Ok(encrypt_vandalproof(data, &iv))
        },
    }
}

/// The ArcticFox key of a new encryption: the current UNIX time in seconds
/// as `i32` (`SystemTime::now().duration_since(UNIX_EPOCH)`), or 0x12345678
/// when the clock reads before the epoch. Nothing is promised of the value.
#[verifier::external_body]
fn clock_key() -> i32 {
    std::time::SystemTime::now().duration_since(std::time::UNIX_EPOCH).map(|d| d.as_secs() as i32).unwrap_or(0x1234_5678)
}

/// Encrypt `data` with scheme `enc`; the ArcticFox key, and the seed of
/// the VandalProof IV, come from the clock.
pub fn encrypt(data: &[u8], enc: EncryptionType) -> (r: Result<Vec<u8>, FirmwareError>)
    requires
        data@.len() + 32 <= usize::MAX,
    ensures
        exists|key: i32| r matches Ok(v) && v@ == #[trigger] encrypt_spec(data@, enc, key),
{
    let key = clock_key();
    let r = encrypt_with_key(data, enc, key);
    assert(r matches Ok(v) && v@ == encrypt_spec(data@, enc, key));
    r
}


/// Detection gives back a Joyetech-encrypted image and its scheme, unless
/// the ciphertext itself already shows the marker.
pub proof fn lemma_detect_joyetech(d: Seq<u8>)
    requires
        has_marker(d),
        d.len() >= 8,
        !has_marker(joyetech(d)),
    ensures
        detect(joyetech(d)) == Some((d, EncryptionType::Joyetech)),
{
    lemma_joyetech_involution(d);
}

/// Detection gives back an ArcticFox-encrypted image and its scheme, unless
/// an earlier candidate (the ciphertext itself, or its Joyetech decryption)
/// shows the marker.
pub proof fn lemma_detect_arcticfox(d: Seq<u8>, key: i32)
    requires
        has_marker(d),
        !has_marker(af_encrypt(d, key, 0x17, 9)),
        !has_marker(joyetech(af_encrypt(d, key, 0x17, 9))),
    ensures
        detect(af_encrypt(d, key, 0x17, 9)) == Some((d, EncryptionType::ArcticFox)),
{
    lemma_arcticfox_roundtrip(d, key, 0x17, 9);
}

/// Detection gives back an ArcticFox2-encrypted image and its scheme, unless
/// an earlier candidate shows the marker.
pub proof fn lemma_detect_arcticfox2(d: Seq<u8>, key: i32)
    requires
        has_marker(d),
        !has_marker(af_encrypt(d, key, 0x19, 11)),
        !has_marker(joyetech(af_encrypt(d, key, 0x19, 11))),
        !(af_decrypt(af_encrypt(d, key, 0x19, 11), 0x17, 9) matches Some(p) && has_marker(p)),
    ensures
        detect(af_encrypt(d, key, 0x19, 11)) == Some((d, EncryptionType::ArcticFox2)),
{
    lemma_arcticfox_roundtrip(d, key, 0x19, 11);
}

/// Detection gives back a VandalProof package's plaintext and its scheme,
/// unless an earlier candidate shows the marker.
pub proof fn lemma_detect_vandalproof(d: Seq<u8>, iv: Seq<u8>)
    requires
        iv.len() == 16,
        has_marker(d),
        !has_marker(vp_encrypt(d, iv)),
        !(vp_encrypt(d, iv).len() >= 8 && has_marker(joyetech(vp_encrypt(d, iv)))),
        !(af_decrypt(vp_encrypt(d, iv), 0x17, 9) matches Some(p) && has_marker(p)),
        !(af_decrypt(vp_encrypt(d, iv), 0x19, 11) matches Some(p) && has_marker(p)),
    ensures
        detect(vp_encrypt(d, iv)) == Some((d, EncryptionType::VandalProof)),
{
    lemma_vp_roundtrip(d, iv);
}

} // verus!
