//! The bootloader HID protocol: command packets, dataflash layout and the
//! framing of firmware and data streams. The device I/O itself is done by
//! the caller; everything here is plain computation on bytes.

use crate::firmware::error::{error_text, FirmwareError};
use crate::firmware::text::{
    chars_eq, chars_of, dec_text, push_all, push_dec, push_text, string_from_chars, utf8_lossy, utf8_lossy_string, utf8_string,
};
use vstd::prelude::*;

verus! {

/// MCU family of a connected device, keyed by USB vendor ID.
#[derive(Debug, Clone, Copy, PartialEq, Eq, Structural)]
pub enum McuFamily {
    /// Nuvoton M451 line (Pico and most Joyetech/Eleaf ArcticFox devices).
    Nuvoton,
    /// STMicro STM32 line (Eleaf iStick Rim C et al., VID 0483).
    Stm,
}

pub const CMD_READ_DATAFLASH: u8 = 0x35;

pub const CMD_WRITE_DATAFLASH: u8 = 0x53;

pub const CMD_WRITE_DATA: u8 = 0xC3;

pub const CMD_RESTART: u8 = 0xB4;

pub const CMD_SET_LOGO: u8 = 0xA5;

pub const CMD_READ_MONITORING_DATA: u8 = 0x66;

pub const CMD_SCREENSHOT: u8 = 0xC1;

pub const CMD_SET_DATETIME: u8 = 0x64;

/// Monitoring telemetry payload size in bytes.
pub const MONITORING_DATA_SIZE: usize = 64;

/// Dataflash size: a 4-byte checksum and 2044 bytes of data.
pub const DATAFLASH_SIZE: usize = 2048;

/// Bytes of an HID report payload.
pub const REPORT_SIZE: usize = 64;

/// APROM offset of the logo blocks.
pub const LOGO_OFFSET: i32 = 102400;

/// Two 512-byte image blocks.
pub const LOGO_LENGTH: usize = 1024;

/// Screenshot size (64x128, vertical packing).
pub const SCREENSHOT_SIZE: usize = 0x400;

/// Largest firmware image the APROM takes.
pub const MAX_FIRMWARE_SIZE: usize = 131072;

/// Smallest plausible firmware image.
pub const MIN_FIRMWARE_SIZE: usize = 1024;

/// Flash row the LDROM updater programs at once.
pub const FLASH_ROW: usize = 512;

/// Offset of the boot flag in the dataflash read (after the checksum).
pub const BOOT_FLAG_OFFSET: usize = 13;

/// The family of a device with USB vendor ID `vid`.
pub open spec fn family_of(vid: u16) -> McuFamily {
    if vid == 0x0483 {
        McuFamily::Stm
    } else {
        McuFamily::Nuvoton
    }
}

/// The 4-byte signature of a family's command packets.
pub open spec fn signature_of(f: McuFamily) -> Seq<u8> {
    match f {
        McuFamily::Nuvoton => seq![0x48u8, 0x49, 0x44, 0x43],
        McuFamily::Stm => seq![0x5Cu8, 0xCA, 0x37, 0x75],
    }
}

impl McuFamily {
    /// The family of a device with USB vendor ID `vid`.
    pub fn from_vid(vid: u16) -> (f: McuFamily)
        ensures
            f == family_of(vid),
    {
        if vid == 0x0483 {
            McuFamily::Stm
        } else {
            McuFamily::Nuvoton
        }
    }

    /// Command-packet signature bytes: the STM32 bootloader answers nothing
    /// to the Nuvoton `HIDC` signature.
    pub fn hid_signature(self) -> (s: [u8; 4])
        ensures
            s@ == signature_of(self),
    {
        match self {
            McuFamily::Nuvoton => [0x48, 0x49, 0x44, 0x43],
            McuFamily::Stm => [0x5C, 0xCA, 0x37, 0x75],
        }
    }

    /// APROM address sent as first argument of the WriteData command: 0 for
    /// Nuvoton, the flash base for STM.
    pub fn firmware_start_address(self) -> (a: i32)
        ensures
            a == (match self {
                McuFamily::Nuvoton => 0i32,
                McuFamily::Stm => 0x0800C000i32,
            }),
    {
        match self {
            McuFamily::Nuvoton => 0,
            McuFamily::Stm => 0x0800C000,
        }
    }
}

/// Little-endian bytes of `v`.
pub open spec fn le_bytes(v: i32) -> Seq<u8> {
    let u = v as u32;
    seq![(u & 0xFF) as u8, ((u >> 8) & 0xFF) as u8, ((u >> 16) & 0xFF) as u8, ((u >> 24) & 0xFF) as u8]
}

/// Sum of `s`.
pub open spec fn byte_sum(s: Seq<u8>) -> int
    decreases s.len(),
{
    if s.len() == 0 {
        0
    } else {
        byte_sum(s.drop_last()) + s.last()
    }
}

/// The first 14 bytes of a command packet: command, length 0x0E, the two
/// arguments and the family signature.
pub open spec fn command_head(cmd: u8, arg1: i32, arg2: i32, family: McuFamily) -> Seq<u8> {
    seq![cmd, 0x0Eu8] + le_bytes(arg1) + le_bytes(arg2) + signature_of(family)
}

/// The 18-byte command packet: the head and the sum of its bytes.
pub open spec fn command_packet(cmd: u8, arg1: i32, arg2: i32, family: McuFamily) -> Seq<u8> {
    let head = command_head(cmd, arg1, arg2, family);
    head + le_bytes(byte_sum(head) as i32)
}

fn le_exec(v: i32) -> (b: [u8; 4])
    ensures
        b@ == le_bytes(v),
{
    let u = v as u32;
    [(u & 0xFF) as u8, ((u >> 8) & 0xFF) as u8, ((u >> 16) & 0xFF) as u8, ((u >> 24) & 0xFF) as u8]
}

proof fn lemma_byte_sum_bound(s: Seq<u8>)
    ensures
        0 <= byte_sum(s) <= 255 * s.len(),
    decreases s.len(),
{
    if s.len() > 0 {
        lemma_byte_sum_bound(s.drop_last());
    }
}

proof fn lemma_le_bytes_value(u: u32)
    by (bit_vector)
    ensures
        ((u & 0xFF) as u8) + 256 * (((u >> 8) & 0xFF) as u8) + 65536 * (((u >> 16) & 0xFF) as u8) + 16777216 * (((u
            >> 24) & 0xFF) as u8) == u,
{
}

/// The command packet: the command, the length 14, the first and then the
/// second argument as little-endian 32-bit numbers, the family signature,
/// and the sum of those 14 bytes as a little-endian 32-bit number.
pub proof fn lemma_command_packet_layout(cmd: u8, arg1: i32, arg2: i32, family: McuFamily)
    ensures
        ({
            let p = command_packet(cmd, arg1, arg2, family);
            &&& p.len() == 18
            &&& p[0] == cmd
            &&& p[1] == 14
            &&& p[2] + 256 * p[3] + 65536 * p[4] + 16777216 * p[5] == arg1 as u32
            &&& p[6] + 256 * p[7] + 65536 * p[8] + 16777216 * p[9] == arg2 as u32
            &&& p.subrange(10, 14) == signature_of(family)
            &&& p[14] + 256 * p[15] + 65536 * p[16] + 16777216 * p[17] == byte_sum(p.subrange(0, 14))
        }),
{
    let h = command_head(cmd, arg1, arg2, family);
    let p = command_packet(cmd, arg1, arg2, family);
    lemma_le_bytes_value(arg1 as u32);
    lemma_le_bytes_value(arg2 as u32);
    lemma_byte_sum_bound(h);
    assert(p.subrange(0, 14) =~= h);
    let sum = byte_sum(h);
    assert(((sum as i32) as u32) == sum);
    lemma_le_bytes_value(sum as u32);
    assert(p.subrange(10, 14) =~= signature_of(family));
}

/// Build the 18-byte command packet for `family`.
pub fn create_command(cmd: u8, arg1: i32, arg2: i32, family: McuFamily) -> (p: [u8; 18])
    ensures
        p@ == command_packet(cmd, arg1, arg2, family),
{
    let a = le_exec(arg1);
    let b = le_exec(arg2);
    let s = family.hid_signature();
    let head: [u8; 14] = [cmd, 0x0E, a[0], a[1], a[2], a[3], b[0], b[1], b[2], b[3], s[0], s[1], s[2], s[3]];
    let ghost h = command_head(cmd, arg1, arg2, family);
    assert(head@ =~= h);
    let mut sum: i32 = 0;
    let mut i: usize = 0;
    while i < 14
        invariant
            0 <= i <= 14,
            head@ == h,
            h.len() == 14,
            sum == byte_sum(h.subrange(0, i as int)),
        decreases 14 - i,
    {
        proof {
            assert(h.subrange(0, i + 1).drop_last() =~= h.subrange(0, i as int));
            lemma_byte_sum_bound(h.subrange(0, i as int));
        }
        sum = sum + head[i] as i32;
        i = i + 1;
    }
    assert(h.subrange(0, 14) =~= h);
    let c = le_exec(sum);
    let p: [u8; 18] = [
        head[0],
        head[1],
        head[2],
        head[3],
        head[4],
        head[5],
        head[6],
        head[7],
        head[8],
        head[9],
        head[10],
        head[11],
        head[12],
        head[13],
        c[0],
        c[1],
        c[2],
        c[3],
    ];
    assert(p@ =~= command_packet(cmd, arg1, arg2, family));
    p
}

/// The HID output report for `payload`: report ID 0, the payload, zeros.
pub open spec fn report_of(payload: Seq<u8>) -> Seq<u8> {
    Seq::new((REPORT_SIZE + 1) as nat, |i: int| if 1 <= i <= payload.len() { payload[i - 1] } else { 0u8 })
}

/// Frame `payload` (at most 64 bytes) as an HID output report.
pub fn report(payload: &[u8]) -> (r: Vec<u8>)
    requires
        payload@.len() <= REPORT_SIZE,
    ensures
        r@ == report_of(payload@),
{
    let mut r: Vec<u8> = Vec::new();
    r.push(0);
    let mut i: usize = 0;
    while i < REPORT_SIZE
        invariant
            0 <= i <= REPORT_SIZE,
            payload@.len() <= REPORT_SIZE,
            r@ == report_of(payload@).subrange(0, i + 1),
        decreases REPORT_SIZE - i,
    {
        let v = if i < payload.len() {
            payload[i]
        } else {
            0
        };
        r.push(v);
        assert(r@ =~= report_of(payload@).subrange(0, i + 2));
        i = i + 1;
    }
    assert(r@ =~= report_of(payload@));
    r
}

/// Little-endian i32 at `off` of `b`.
pub open spec fn i32_at(b: Seq<u8>, off: int) -> i32 {
    (b[off] as u32 | (b[off + 1] as u32) << 8 | (b[off + 2] as u32) << 16 | (b[off + 3] as u32) << 24) as i32
}

/// Firmware version from a raw dataflash read (4-byte checksum, then the
/// data; the version is a little-endian i32 at data offset 256).
pub fn parse_fw_version(dataflash: &[u8]) -> (r: Result<i32, FirmwareError>)
    ensures
        dataflash@.len() < 264 ==> (r matches Err(FirmwareError::Other(m)) && m@ == "dataflash too short"@),
        dataflash@.len() >= 264 ==> r == Ok::<i32, FirmwareError>(i32_at(dataflash@, 260)),
{
    if dataflash.len() < 4 + 260 {
        return Err(FirmwareError::Other("dataflash too short".to_owned()));
    }
    let v = (dataflash[260] as u32 | (dataflash[261] as u32) << 8 | (dataflash[262] as u32) << 16 | (
    dataflash[263] as u32) << 24) as i32;
    Ok(v)
}

/// The wrapping sum of `s`.
pub open spec fn wrapping_sum(s: Seq<u8>) -> u32
    decreases s.len(),
{
    if s.len() == 0 {
        0
    } else {
        ((wrapping_sum(s.drop_last()) + s.last()) % 0x1_0000_0000) as u32
    }
}

/// Checksum of dataflash data: the sum of its bytes, wrapping.
pub fn dataflash_checksum(data: &[u8]) -> (c: u32)
    ensures
        c == wrapping_sum(data@),
{
    let mut c: u32 = 0;
    let mut i: usize = 0;
    while i < data.len()
        invariant
            0 <= i <= data@.len(),
            c == wrapping_sum(data@.subrange(0, i as int)),
        decreases data@.len() - i,
    {
        assert(data@.subrange(0, i + 1).drop_last() =~= data@.subrange(0, i as int));
        c = c.wrapping_add(data[i] as u32);
        i = i + 1;
    }
    assert(data@.subrange(0, data@.len() as int) =~= data@);
    c
}

/// Little-endian bytes of a u32.
pub open spec fn u32_le(v: u32) -> Seq<u8> {
    seq![(v & 0xFF) as u8, ((v >> 8) & 0xFF) as u8, ((v >> 16) & 0xFF) as u8, ((v >> 24) & 0xFF) as u8]
}

/// The 2048-byte dataflash image written for `data`: its checksum, then it.
pub fn dataflash_payload(data: &[u8]) -> (p: Vec<u8>)
    requires
        data@.len() == 2044,
    ensures
        p@ == u32_le(wrapping_sum(data@)) + data@,
{
    let c = dataflash_checksum(data);
    let mut p: Vec<u8> = Vec::new();
    p.push((c & 0xFF) as u8);
    p.push(((c >> 8) & 0xFF) as u8);
    p.push(((c >> 16) & 0xFF) as u8);
    p.push(((c >> 24) & 0xFF) as u8);
    let mut i: usize = 0;
    while i < data.len()
        invariant
            0 <= i <= data@.len(),
            p@ == u32_le(c) + data@.subrange(0, i as int),
        decreases data@.len() - i,
    {
        p.push(data[i]);
        assert(p@ =~= u32_le(c) + data@.subrange(0, i + 1));
        i = i + 1;
    }
    assert(data@.subrange(0, data@.len() as int) =~= data@);
    p
}

/// The data area (after the checksum) of a dataflash read, with the 4-byte
/// product ID at data offset 312 and the boot flag at data offset 9 set to
/// `boot_flag`.
pub open spec fn user_data_with(df: Seq<u8>, pid: Option<Seq<u8>>, boot_flag: u8) -> Seq<u8> {
    Seq::new(
        2044,
        |j: int|
            if j == 9 {
                boot_flag
            } else if pid is Some && 312 <= j < 316 {
                pid->0[j - 312]
            } else {
                df[j + 4]
            },
    )
}

/// The data area of a full dataflash read `df` with the boot flag set to
/// `boot_flag` and, if given, the product ID replaced.
pub fn user_data(df: &[u8], pid: Option<&[u8]>, boot_flag: u8) -> (u: Vec<u8>)
    requires
        df@.len() == DATAFLASH_SIZE,
        pid matches Some(p) ==> p@.len() == 4,
    ensures
        u@ == user_data_with(df@, match pid { Some(p) => Some(p@), None => None }, boot_flag),
{
    let ghost target = user_data_with(df@, match pid { Some(p) => Some(p@), None => None }, boot_flag);
    let mut u: Vec<u8> = Vec::new();
    let mut j: usize = 0;
    while j < 2044
        invariant
            0 <= j <= 2044,
            df@.len() == DATAFLASH_SIZE,
            pid matches Some(p) ==> p@.len() == 4,
            target == user_data_with(df@, match pid { Some(p) => Some(p@), None => None }, boot_flag),
            u@ == target.subrange(0, j as int),
        decreases 2044 - j,
    {
        let v = if j == 9 {
            boot_flag
        } else {
            match pid {
                Some(p) => if 312 <= j && j < 316 {
                    p[j - 312]
                } else {
                    df[j + 4]
                },
                None => df[j + 4],
            }
        };
        u.push(v);
        assert(u@ =~= target.subrange(0, j + 1));
        j = j + 1;
    }
    assert(u@ =~= target);
    u
}

/// The dataflash frame written for a new product ID and boot flag (the
/// checksum, then the data area) reads them back where a dataflash read
/// holds them, and keeps every other data byte of the read it was made from.
pub proof fn lemma_frame_reads_back(df: Seq<u8>, pid: Seq<u8>, flag: u8)
    requires
        df.len() == DATAFLASH_SIZE,
        pid.len() == 4,
    ensures
        ({
            let data = user_data_with(df, Some(pid), flag);
            let frame = u32_le(wrapping_sum(data)) + data;
            &&& frame.len() == DATAFLASH_SIZE
            &&& frame.subrange(316, 320) == pid
            &&& frame[BOOT_FLAG_OFFSET as int] == flag
            &&& forall|j: int|
                4 <= j < DATAFLASH_SIZE && j != BOOT_FLAG_OFFSET && !(316 <= j < 320) ==> #[trigger] frame[j] == df[j]
        }),
{
    let data = user_data_with(df, Some(pid), flag);
    let frame = u32_le(wrapping_sum(data)) + data;
    assert(frame.subrange(316, 320) =~= pid);
}

/// The product ID bytes (dataflash bytes 316..320) of a dataflash read, if
/// it is long enough.
pub fn product_id_bytes(df: &[u8]) -> (r: Option<Vec<u8>>)
    ensures
        df@.len() < 320 ==> r is None,
        df@.len() >= 320 ==> (r matches Some(v) && v@ == df@.subrange(316, 320)),
{
    if df.len() < 320 {
        return None;
    }
    let mut v: Vec<u8> = Vec::new();
    v.push(df[316]);
    v.push(df[317]);
    v.push(df[318]);
    v.push(df[319]);
    assert(v@ =~= df@.subrange(316, 320));
    Some(v)
}

/// The product ID of a dataflash read as text: refused when the read is
/// too short or the ID is no UTF-8.
pub fn product_id_text(df: &[u8]) -> (r: Result<String, FirmwareError>)
    ensures
        df@.len() < 320 ==> (r matches Err(FirmwareError::Other(m)) && m@ == "dataflash too short"@),
        df@.len() >= 320 ==> if vstd::utf8::valid_utf8(df@.subrange(316, 320)) {
            r matches Ok(s) && s@ == vstd::utf8::decode_utf8(df@.subrange(316, 320))
        } else {
            r matches Err(FirmwareError::Other(m)) && m@ == "invalid Product ID"@
        },
{
    match product_id_bytes(df) {
        None => Err(FirmwareError::Other("dataflash too short".to_owned())),
        Some(pid) => match utf8_string(pid) {
            Some(s) => Ok(s),
            None => Err(FirmwareError::Other("invalid Product ID".to_owned())),
        },
    }
}

/// The product-ID guard of a flash: the connected device's ID (read lossily
/// as UTF-8) must be `want`.
pub fn check_product_id(df: &[u8], want: &str) -> (r: Result<(), FirmwareError>)
    ensures
        df@.len() < 320 ==> (r matches Err(FirmwareError::Other(m)) && m@ == "dataflash too short"@),
        df@.len() >= 320 ==> (r is Ok <==> utf8_lossy(df@.subrange(316, 320)) == want@),
        df@.len() >= 320 && utf8_lossy(df@.subrange(316, 320)) != want@ ==> (r matches Err(FirmwareError::Other(m))
            && m@ == "refusing to flash: connected device is "@ + utf8_lossy(df@.subrange(316, 320))
            + ", firmware is for "@ + want@),
{
    let pid = match product_id_bytes(df) {
        None => {
            return Err(FirmwareError::Other("dataflash too short".to_owned()));
        },
        Some(p) => utf8_lossy_string(p.as_slice()),
    };
    let have = chars_of(pid.as_str());
    let wanted = chars_of(want);
    if chars_eq(have.as_slice(), wanted.as_slice()) {
        return Ok(());
    }
    let mut m: Vec<char> = Vec::new();
    push_text(&mut m, "refusing to flash: connected device is ");
    push_all(&mut m, have.as_slice());
    push_text(&mut m, ", firmware is for ");
    push_all(&mut m, wanted.as_slice());
    Err(FirmwareError::Other(string_from_chars(m.as_slice())))
}

/// The boot flag of a dataflash read: 1 means the LDROM updater runs.
pub fn boot_flag(df: &[u8]) -> (r: Option<u8>)
    ensures
        df@.len() <= BOOT_FLAG_OFFSET ==> r is None,
        df@.len() > BOOT_FLAG_OFFSET ==> r == Some(df@[BOOT_FLAG_OFFSET as int]),
{
    if df.len() <= BOOT_FLAG_OFFSET {
        None
    } else {
        Some(df[BOOT_FLAG_OFFSET])
    }
}

/// Sanity check of an image before touching the device: between 1 KiB and
/// 128 KiB (the APROM is 128K flash minus the LDROM).
pub fn check_image_size(bytes: &[u8]) -> (r: Result<(), FirmwareError>)
    ensures
        r is Ok <==> MIN_FIRMWARE_SIZE <= bytes@.len() <= MAX_FIRMWARE_SIZE,
        r matches Err(e) ==> (e matches FirmwareError::Other(m) && m@ == "implausible firmware image size: "@ + dec_text(
            bytes@.len(),
        ) + " bytes"@),
{
    if bytes.len() < MIN_FIRMWARE_SIZE || bytes.len() > MAX_FIRMWARE_SIZE {
        let mut m: Vec<char> = Vec::new();
        push_text(&mut m, "implausible firmware image size: ");
        push_dec(&mut m, bytes.len() as u128);
        push_text(&mut m, " bytes");
        return Err(FirmwareError::Other(string_from_chars(m.as_slice())));
    }
    Ok(())
}

/// Length of the firmware stream: the image padded to whole flash rows.
pub open spec fn padded_len(n: nat) -> nat {
    ((n + FLASH_ROW - 1) / (FLASH_ROW as int)) as nat * FLASH_ROW as nat
}

/// The declared length of the firmware stream for an image of `n` bytes:
/// padded to whole 512-byte rows; refused above 128 KiB.
pub fn stream_length(n: usize) -> (r: Result<usize, FirmwareError>)
    ensures
        padded_len(n as nat) <= MAX_FIRMWARE_SIZE ==> r == Ok::<usize, FirmwareError>(padded_len(n as nat) as usize),
        padded_len(n as nat) > MAX_FIRMWARE_SIZE ==> (r matches Err(FirmwareError::Other(m)) && m@
            == "firmware image too large after row padding: "@ + dec_text(padded_len(n as nat)) + " bytes"@),
{
    let rows = n / FLASH_ROW + if n % FLASH_ROW == 0 {
        0
    } else {
        1
    };
    assert(rows == (n + FLASH_ROW - 1) / (FLASH_ROW as int)) by (nonlinear_arith)
        requires
            rows == n / 512 + if n % 512 == 0 { 0int } else { 1int },
    ;
    if rows > MAX_FIRMWARE_SIZE / FLASH_ROW {
        let mut m: Vec<char> = Vec::new();
        push_text(&mut m, "firmware image too large after row padding: ");
        push_dec(&mut m, rows as u128 * FLASH_ROW as u128);
        push_text(&mut m, " bytes");
        return Err(FirmwareError::Other(string_from_chars(m.as_slice())));
    }
    Ok(rows * FLASH_ROW)
}

/// The report that carries stream bytes `start..start+64` of `image`:
/// image bytes where there are any, 0xFF (erased flash) past its end.
pub open spec fn stream_report_of(image: Seq<u8>, start: int) -> Seq<u8> {
    Seq::new(
        (REPORT_SIZE + 1) as nat,
        |i: int| if i == 0 { 0u8 } else if start + i - 1 < image.len() { image[start + i - 1] } else { 0xFFu8 },
    )
}

/// The report carrying stream bytes `start..start+64` of `image`.
pub fn stream_report(image: &[u8], start: usize) -> (r: Vec<u8>)
    requires
        start + REPORT_SIZE <= usize::MAX,
    ensures
        r@ == stream_report_of(image@, start as int),
{
    let mut r: Vec<u8> = Vec::new();
    r.push(0);
    let mut i: usize = 0;
    while i < REPORT_SIZE
        invariant
            0 <= i <= REPORT_SIZE,
            start + REPORT_SIZE <= usize::MAX,
            r@ == stream_report_of(image@, start as int).subrange(0, i + 1),
        decreases REPORT_SIZE - i,
    {
        let v = if start + i < image.len() {
            image[start + i]
        } else {
            0xFF
        };
        r.push(v);
        assert(r@ =~= stream_report_of(image@, start as int).subrange(0, i + 2));
        i = i + 1;
    }
    assert(r@ =~= stream_report_of(image@, start as int));
    r
}

/// The 1024 logo bytes: `block2` first, `block1` at 512, zeros elsewhere.
pub open spec fn logo_of(block1: Seq<u8>, block2: Seq<u8>) -> Seq<u8> {
    Seq::new(
        LOGO_LENGTH as nat,
        |i: int|
            if i < block2.len() {
                block2[i]
            } else if 512 <= i < 512 + block1.len() {
                block1[i - 512]
            } else {
                0u8
            },
    )
}

/// The logo data for two image blocks of at most 512 bytes each.
pub fn logo_data(block1: &[u8], block2: &[u8]) -> (r: Result<Vec<u8>, FirmwareError>)
    ensures
        (block1@.len() > 512 || block2@.len() > 512) ==> r matches Err(FirmwareError::Other(_)),
        (block1@.len() <= 512 && block2@.len() <= 512) ==> (r matches Ok(v) && v@ == logo_of(block1@, block2@)),
{
    if block1.len() > 512 || block2.len() > 512 {
        return Err(FirmwareError::Other("logo block too big (max 512 bytes)".to_owned()));
    }
    let mut v: Vec<u8> = Vec::new();
    let mut i: usize = 0;
    while i < LOGO_LENGTH
        invariant
            0 <= i <= LOGO_LENGTH,
            block1@.len() <= 512,
            block2@.len() <= 512,
            v@ == logo_of(block1@, block2@).subrange(0, i as int),
        decreases LOGO_LENGTH - i,
    {
        let b = if i < block2.len() {
            block2[i]
        } else if 512 <= i && i < 512 + block1.len() {
            block1[i - 512]
        } else {
            0
        };
        v.push(b);
        assert(v@ =~= logo_of(block1@, block2@).subrange(0, i + 1));
        i = i + 1;
    }
    assert(v@ =~= logo_of(block1@, block2@));
    Ok(v)
}

/// The clock payload: year (little-endian u16), month, day, hour, minute,
/// second.
pub fn date_time_payload(y: u16, mo: u8, d: u8, h: u8, mi: u8, s: u8) -> (p: Vec<u8>)
    ensures
        p@ == seq![(y & 0xFF) as u8, (y >> 8) as u8, mo, d, h, mi, s],
{
    let mut p: Vec<u8> = Vec::new();
    p.push((y & 0xFF) as u8);
    p.push((y >> 8) as u8);
    p.push(mo);
    p.push(d);
    p.push(h);
    p.push(mi);
    p.push(s);
    assert(p@ =~= seq![(y & 0xFF) as u8, (y >> 8) as u8, mo, d, h, mi, s]);
    p
}

// The flashing flows. Each is a step function from a state and the outcome
// of the last action to the next state and action; the caller performs the
// actions (HID exchanges, sleeps, progress lines) and feeds back what they
// gave, until a `Finish`.

/// What the caller does next.
#[derive(Debug)]
pub enum FlashAction {
    /// Read the 2048-byte dataflash (opening the device first).
    ReadDataflash,
    /// Write the 2044-byte user area as the new dataflash.
    WriteDataflash(Vec<u8>),
    /// Bring the device into LDROM updater mode (the `LdromMode` flow).
    EnterLdrom,
    /// Send the write command and stream the whole image; `first` starts the
    /// 15-second retry window.
    WriteStream { first: bool },
    /// Send the restart command.
    Restart,
    /// Sleep this many milliseconds.
    Sleep(u64),
    /// Show a progress line.
    Progress(String),
    /// Run the guarded flash flow.
    RunFlash,
    /// Stop with this outcome.
    Finish(Result<(), FirmwareError>),
}

/// The outcome of the last action.
#[derive(Debug)]
pub enum FlashEvent {
    /// After a `Sleep` or a `Progress` line, and to begin.
    Tick,
    Dataflash(Vec<u8>),
    DataflashErr(FirmwareError),
    DataflashWritten(Result<(), FirmwareError>),
    LdromDone(Result<(), FirmwareError>),
    StreamOk,
    /// A failed stream, and whether the 15-second window has passed.
    StreamErr { err: FirmwareError, past_deadline: bool },
    RestartOk,
    RestartErr(FirmwareError),
    FlashDone(Result<(), FirmwareError>),
}

/// Dataflash reads carry the whole 2048 bytes (a read is refused otherwise).
pub open spec fn event_wf(ev: FlashEvent) -> bool {
    ev matches FlashEvent::Dataflash(df) ==> df@.len() == DATAFLASH_SIZE
}

/// `act` stops with an `Other` error whose text is `m`.
pub open spec fn fails_with(act: FlashAction, m: Seq<char>) -> bool {
    act matches FlashAction::Finish(Err(FirmwareError::Other(s))) && s@ == m
}

/// `act` shows the progress line `m`.
pub open spec fn shows(act: FlashAction, m: Seq<char>) -> bool {
    act matches FlashAction::Progress(s) && s@ == m
}

/// The product ID of a dataflash read, decoded lossily.
pub open spec fn pid_text(df: Seq<u8>) -> Seq<char> {
    utf8_lossy(df.subrange(316, 320))
}

fn unexpected() -> (a: FlashAction)
    ensures
        fails_with(a, "unexpected flash event"@),
{
    FlashAction::Finish(Err(FirmwareError::Other("unexpected flash event".to_owned())))
}

fn progress(s: &str) -> (a: FlashAction)
    ensures
        shows(a, s@),
{
    FlashAction::Progress(s.to_owned())
}

fn fail(s: &str) -> (a: FlashAction)
    ensures
        fails_with(a, s@),
{
    FlashAction::Finish(Err(FirmwareError::Other(s.to_owned())))
}

// The guarded flash.

/// Where the guarded flash stands.
#[derive(Debug)]
pub enum FlashState {
    /// Nothing done yet.
    Start,
    /// The dataflash was asked for, to check the product ID.
    AwaitPid,
    /// The LDROM flow runs.
    EnsuringLdrom,
    /// Sleeping before poll `waited + 1` for a device in bootloader mode.
    BootWait { waited: u32 },
    /// Poll `waited` for a device in bootloader mode is out.
    BootRead { waited: u32 },
    /// A progress line about the bootloader wait is out.
    BootShown { waited: u32 },
    /// The next action is a stream; `first` when none was sent yet.
    StreamNext { first: bool },
    /// A stream is out.
    Streaming,
    /// Restart attempt `tries` (from 0) is out.
    Restarting { tries: u32 },
    /// `tries` restarts failed, the last with `err`; sleeping before the next.
    RestartBackoff { tries: u32, err: FirmwareError },
    /// Sleeping before boot check `polls` (from 0).
    VerifyWait { polls: u32 },
    /// Boot check `polls` is out.
    VerifyRead { polls: u32 },
    Done,
}

/// The states after the size check and the product-ID guard passed.
pub open spec fn cleared(st: FlashState) -> bool {
    !(st is Start || st is AwaitPid || st is Done)
}

/// The step of the guarded flash of an image of `n` bytes, for a device
/// whose product ID must be `want` when one is given.
pub open spec fn flash_step_spec(
    st: FlashState,
    ev: FlashEvent,
    n: nat,
    want: Option<Seq<char>>,
    st2: FlashState,
    act: FlashAction,
) -> bool {
    match (st, ev) {
        (FlashState::Start, FlashEvent::Tick) => if !(MIN_FIRMWARE_SIZE <= n <= MAX_FIRMWARE_SIZE) {
            st2 is Done && fails_with(act, "implausible firmware image size: "@ + dec_text(n) + " bytes"@)
        } else if want is Some {
            st2 is AwaitPid && act is ReadDataflash
        } else {
            st2 is EnsuringLdrom && act is EnterLdrom
        },
        (FlashState::AwaitPid, FlashEvent::Dataflash(df)) => match want {
            None => st2 is Done && fails_with(act, "unexpected flash event"@),
            Some(w) => if df@.len() < 320 {
                st2 is Done && fails_with(act, "dataflash too short"@)
            } else if pid_text(df@) == w {
                st2 is EnsuringLdrom && act is EnterLdrom
            } else {
                st2 is Done && fails_with(
                    act,
                    "refusing to flash: connected device is "@ + pid_text(df@) + ", firmware is for "@ + w,
                )
            },
        },
        (FlashState::AwaitPid, FlashEvent::DataflashErr(e)) => st2 is Done && act == FlashAction::Finish(Err(e)),
        (FlashState::EnsuringLdrom, FlashEvent::LdromDone(res)) => match res {
            Ok(()) => st2 == (FlashState::Streaming) && act == (FlashAction::WriteStream { first: true }),
            Err(FirmwareError::DidNotReenumerate) => st2 == (FlashState::BootShown { waited: 0 }) && shows(
                act,
                "device did not enter bootloader mode \u{2014} unplug it and replug it (hold a button while plugging in if it doesn't come up); waiting\u{2026}"@,
            ),
            Err(e) => st2 is Done && act == FlashAction::Finish(Err(e)),
        },
        (FlashState::BootShown { waited }, FlashEvent::Tick) => st2 == (FlashState::BootWait { waited })
            && act == FlashAction::Sleep(500),
        (FlashState::BootWait { waited }, FlashEvent::Tick) => st2 == (FlashState::BootRead {
            waited: if waited == u32::MAX { 0 } else { (waited + 1) as u32 },
        }) && act is ReadDataflash,
        (FlashState::BootRead { waited }, FlashEvent::Dataflash(df)) => if df@[BOOT_FLAG_OFFSET as int] == 1 {
            st2 == (FlashState::StreamNext { first: true }) && shows(
                act,
                "device found in bootloader mode \u{2014} flashing\u{2026}"@,
            )
        } else {
            boot_wait_on(waited, st2, act)
        },
        (FlashState::BootRead { waited }, FlashEvent::DataflashErr(_)) => boot_wait_on(waited, st2, act),
        (FlashState::StreamNext { first }, FlashEvent::Tick) => st2 == (FlashState::Streaming) && act == (
        FlashAction::WriteStream { first }),
        (FlashState::Streaming, FlashEvent::StreamOk) => st2 == (FlashState::Restarting { tries: 0 }) && act
            is Restart,
        (FlashState::Streaming, FlashEvent::StreamErr { err, past_deadline }) => if past_deadline {
            st2 is Done && act == FlashAction::Finish(Err(err))
        } else {
            st2 == (FlashState::StreamNext { first: false }) && act == FlashAction::Sleep(1000)
        },
        (FlashState::Restarting { tries }, FlashEvent::RestartOk) => st2 == (FlashState::VerifyWait { polls: 0 })
            && act == FlashAction::Sleep(500),
        (FlashState::Restarting { tries }, FlashEvent::RestartErr(e)) => st2 == (
        FlashState::RestartBackoff { tries: (tries + 1) as u32, err: e }) && act == FlashAction::Sleep(300),
        (FlashState::RestartBackoff { tries, err }, FlashEvent::Tick) => if tries < 10 {
            st2 == (FlashState::Restarting { tries }) && act is Restart
        } else {
            st2 is Done && act == FlashAction::Finish(Err(err))
        },
        (FlashState::VerifyWait { polls }, FlashEvent::Tick) => st2 == (FlashState::VerifyRead { polls })
            && act is ReadDataflash,
        (FlashState::VerifyRead { polls }, FlashEvent::Dataflash(df)) => if df@[BOOT_FLAG_OFFSET as int] == 0 {
            st2 is Done && act == FlashAction::Finish(Ok(()))
        } else {
            verify_on(polls, st2, act)
        },
        (FlashState::VerifyRead { polls }, FlashEvent::DataflashErr(_)) => verify_on(polls, st2, act),
        _ => st2 is Done && fails_with(act, "unexpected flash event"@),
    }
}

/// After boot poll `waited` found no device in bootloader mode: every eighth
/// poll a progress line, then the next sleep.
pub open spec fn boot_wait_on(waited: u32, st2: FlashState, act: FlashAction) -> bool {
    if waited % 8 == 0 {
        st2 == (FlashState::BootShown { waited }) && shows(
            act,
            "still waiting for the device in bootloader mode\u{2026}"@,
        )
    } else {
        st2 == (FlashState::BootWait { waited }) && act == FlashAction::Sleep(500)
    }
}

/// After boot check `polls` found the boot flag still set: another check,
/// up to 20, else the flash failed.
pub open spec fn verify_on(polls: u32, st2: FlashState, act: FlashAction) -> bool {
    if polls + 1 < 20 {
        st2 == (FlashState::VerifyWait { polls: (polls + 1) as u32 }) && act == FlashAction::Sleep(500)
    } else {
        st2 is Done && fails_with(act, "device did not come back after flashing"@)
    }
}

/// The states of the guarded flash that the steps keep: at most 10 restart
/// attempts, at most 20 boot checks.
pub open spec fn flash_state_wf(st: FlashState) -> bool {
    match st {
        FlashState::Restarting { tries } => tries < 10,
        FlashState::RestartBackoff { tries, .. } => 1 <= tries <= 10,
        FlashState::VerifyWait { polls } => polls < 20,
        FlashState::VerifyRead { polls } => polls < 20,
        _ => true,
    }
}

/// One step of the guarded flash of `image`, for a device whose product ID
/// must be `expected` when one is given. Nothing is streamed, restarted or
/// switched to LDROM mode before the size check and the product-ID guard
/// passed; at most 10 restarts and 20 boot checks are made, and failed
/// streams are retried only inside the 15-second window.
pub fn flash_step(st: FlashState, ev: FlashEvent, image: &[u8], expected: Option<&str>) -> (r: (FlashState, FlashAction))
    requires
        event_wf(ev),
        flash_state_wf(st),
    ensures
        flash_step_spec(st, ev, image@.len(), match expected { Some(w) => Some(w@), None => None }, r.0, r.1),
        flash_state_wf(r.0),
        (r.1 is WriteStream || r.1 is Restart) ==> cleared(st) && cleared(r.0),
        r.1 is EnterLdrom ==> cleared(r.0),
        r.0 is AwaitPid ==> st is Start && MIN_FIRMWARE_SIZE <= image@.len() <= MAX_FIRMWARE_SIZE && expected is Some,
        cleared(r.0) && st is Start ==> MIN_FIRMWARE_SIZE <= image@.len() <= MAX_FIRMWARE_SIZE && expected is None,
        cleared(r.0) && st is AwaitPid ==> match expected {
            None => false,
            Some(w) => (ev matches FlashEvent::Dataflash(df) && df@.len() >= 320 && pid_text(df@) == w@),
        },
        cleared(r.0) ==> cleared(st) || st is Start || st is AwaitPid,
        r.1 is Restart ==> (r.0 matches FlashState::Restarting { tries } && tries < 10),
{
    match st {
        FlashState::Start => match ev {
            FlashEvent::Tick => match check_image_size(image) {
                Err(e) => (FlashState::Done, FlashAction::Finish(Err(e))),
                Ok(()) => match expected {
                    Some(_) => (FlashState::AwaitPid, FlashAction::ReadDataflash),
                    None => (FlashState::EnsuringLdrom, FlashAction::EnterLdrom),
                },
            },
            _ => (FlashState::Done, unexpected()),
        },
        FlashState::AwaitPid => match ev {
            FlashEvent::Dataflash(df) => match expected {
                None => (FlashState::Done, unexpected()),
                Some(w) => match check_product_id(df.as_slice(), w) {
                    Ok(()) => (FlashState::EnsuringLdrom, FlashAction::EnterLdrom),
                    Err(e) => (FlashState::Done, FlashAction::Finish(Err(e))),
                },
            },
            FlashEvent::DataflashErr(e) => (FlashState::Done, FlashAction::Finish(Err(e))),
            _ => (FlashState::Done, unexpected()),
        },
        FlashState::EnsuringLdrom => match ev {
            FlashEvent::LdromDone(res) => match res {
                Ok(()) => (FlashState::Streaming, FlashAction::WriteStream { first: true }),
                Err(FirmwareError::DidNotReenumerate) => (
                    FlashState::BootShown { waited: 0 },
                    progress(
                        "device did not enter bootloader mode \u{2014} unplug it and replug it (hold a button while plugging in if it doesn't come up); waiting\u{2026}",
                    ),
                ),
                Err(e) => (FlashState::Done, FlashAction::Finish(Err(e))),
            },
            _ => (FlashState::Done, unexpected()),
        },
        FlashState::BootShown { waited } => match ev {
            FlashEvent::Tick => (FlashState::BootWait { waited }, FlashAction::Sleep(500)),
            _ => (FlashState::Done, unexpected()),
        },
        FlashState::BootWait { waited } => match ev {
            FlashEvent::Tick => (FlashState::BootRead { waited: waited.wrapping_add(1) }, FlashAction::ReadDataflash),
            _ => (FlashState::Done, unexpected()),
        },
        FlashState::BootRead { waited } => match ev {
            FlashEvent::Dataflash(df) => {
                if df[BOOT_FLAG_OFFSET] == 1 {
                    (
                        FlashState::StreamNext { first: true },
                        progress("device found in bootloader mode \u{2014} flashing\u{2026}"),
                    )
                } else {
                    boot_wait_next(waited)
                }
            },
            FlashEvent::DataflashErr(_) => boot_wait_next(waited),
            _ => (FlashState::Done, unexpected()),
        },
        FlashState::StreamNext { first } => match ev {
            FlashEvent::Tick => (FlashState::Streaming, FlashAction::WriteStream { first }),
            _ => (FlashState::Done, unexpected()),
        },
        FlashState::Streaming => match ev {
            FlashEvent::StreamOk => (FlashState::Restarting { tries: 0 }, FlashAction::Restart),
            FlashEvent::StreamErr { err, past_deadline } => {
                if past_deadline {
                    (FlashState::Done, FlashAction::Finish(Err(err)))
                } else {
                    (FlashState::StreamNext { first: false }, FlashAction::Sleep(1000))
                }
            },
            _ => (FlashState::Done, unexpected()),
        },
        FlashState::Restarting { tries } => match ev {
            FlashEvent::RestartOk => (FlashState::VerifyWait { polls: 0 }, FlashAction::Sleep(500)),
            FlashEvent::RestartErr(e) => (FlashState::RestartBackoff { tries: tries + 1, err: e }, FlashAction::Sleep(300)),
            _ => (FlashState::Done, unexpected()),
        },
        FlashState::RestartBackoff { tries, err } => match ev {
            FlashEvent::Tick => {
                if tries < 10 {
                    (FlashState::Restarting { tries }, FlashAction::Restart)
                } else {
                    (FlashState::Done, FlashAction::Finish(Err(err)))
                }
            },
            _ => (FlashState::Done, unexpected()),
        },
        FlashState::VerifyWait { polls } => match ev {
            FlashEvent::Tick => (FlashState::VerifyRead { polls }, FlashAction::ReadDataflash),
            _ => (FlashState::Done, unexpected()),
        },
        FlashState::VerifyRead { polls } => match ev {
            FlashEvent::Dataflash(df) => {
                if df[BOOT_FLAG_OFFSET] == 0 {
                    (FlashState::Done, FlashAction::Finish(Ok(())))
                } else {
                    verify_next(polls)
                }
            },
            FlashEvent::DataflashErr(_) => verify_next(polls),
            _ => (FlashState::Done, unexpected()),
        },
        FlashState::Done => (FlashState::Done, unexpected()),
    }
}

fn boot_wait_next(waited: u32) -> (r: (FlashState, FlashAction))
    ensures
        boot_wait_on(waited, r.0, r.1),
{
    if waited % 8 == 0 {
        (FlashState::BootShown { waited }, progress("still waiting for the device in bootloader mode\u{2026}"))
    } else {
        (FlashState::BootWait { waited }, FlashAction::Sleep(500))
    }
}

fn verify_next(polls: u32) -> (r: (FlashState, FlashAction))
    requires
        polls < 20,
    ensures
        verify_on(polls, r.0, r.1),
        flash_state_wf(r.0),
{
    if polls + 1 < 20 {
        (FlashState::VerifyWait { polls: polls + 1 }, FlashAction::Sleep(500))
    } else {
        (FlashState::Done, fail("device did not come back after flashing"))
    }
}

/// Restart commands the guarded flash may still send from `st`.
pub open spec fn restarts_left(st: FlashState) -> int {
    match st {
        FlashState::Restarting { tries } => 9 - tries,
        FlashState::RestartBackoff { tries, .. } => 10 - tries,
        FlashState::VerifyWait { .. } => 0,
        FlashState::VerifyRead { .. } => 0,
        FlashState::Done => 0,
        _ => 10,
    }
}

/// Boot checks the guarded flash may still make from `st`.
pub open spec fn checks_left(st: FlashState) -> int {
    match st {
        FlashState::VerifyWait { polls } => 20 - polls,
        FlashState::VerifyRead { polls } => 19 - polls,
        FlashState::Done => 0,
        _ => 20,
    }
}

/// `sts[i]` and event `evs[i]` step to `sts[i + 1]` and action `acts[i]`.
pub open spec fn flash_run(
    n: nat,
    want: Option<Seq<char>>,
    sts: Seq<FlashState>,
    evs: Seq<FlashEvent>,
    acts: Seq<FlashAction>,
) -> bool {
    &&& sts.len() == acts.len() + 1
    &&& evs.len() == acts.len()
    &&& forall|i: int| 0 <= i < acts.len() ==> flash_step_spec(#[trigger] sts[i], evs[i], n, want, sts[i + 1], acts[i])
}

/// Restart commands among `acts`.
pub open spec fn restarts_in(acts: Seq<FlashAction>) -> nat
    decreases acts.len(),
{
    if acts.len() == 0 {
        0
    } else {
        restarts_in(acts.drop_last()) + if acts.last() is Restart { 1nat } else { 0nat }
    }
}

/// Boot checks in a run: the steps into a `VerifyRead` state.
pub open spec fn checks_in(sts: Seq<FlashState>) -> nat
    decreases sts.len(),
{
    if sts.len() <= 1 {
        0
    } else {
        checks_in(sts.drop_last()) + if sts.last() is VerifyRead { 1nat } else { 0nat }
    }
}

proof fn lemma_flash_step_budget(
    st: FlashState,
    ev: FlashEvent,
    n: nat,
    want: Option<Seq<char>>,
    st2: FlashState,
    act: FlashAction,
)
    requires
        flash_state_wf(st),
        flash_step_spec(st, ev, n, want, st2, act),
    ensures
        flash_state_wf(st2),
        0 <= restarts_left(st2),
        0 <= checks_left(st2),
        restarts_left(st2) + (if act is Restart { 1int } else { 0int }) <= restarts_left(st),
        checks_left(st2) + (if st2 is VerifyRead { 1int } else { 0int }) <= checks_left(st),
{
}

/// Over any run of the guarded flash from its start, at most 10 restart
/// commands are sent and at most 20 boot checks are made, whatever the
/// device answers.
pub proof fn lemma_flash_run_bounded(
    n: nat,
    want: Option<Seq<char>>,
    sts: Seq<FlashState>,
    evs: Seq<FlashEvent>,
    acts: Seq<FlashAction>,
)
    requires
        flash_run(n, want, sts, evs, acts),
        sts[0] is Start,
    ensures
        restarts_in(acts) <= 10,
        checks_in(sts) <= 20,
{
    lemma_flash_run_budget(n, want, sts, evs, acts);
}

proof fn lemma_flash_run_budget(
    n: nat,
    want: Option<Seq<char>>,
    sts: Seq<FlashState>,
    evs: Seq<FlashEvent>,
    acts: Seq<FlashAction>,
)
    requires
        flash_run(n, want, sts, evs, acts),
        flash_state_wf(sts[0]),
        0 <= restarts_left(sts[0]),
        0 <= checks_left(sts[0]),
    ensures
        flash_state_wf(sts.last()),
        0 <= restarts_left(sts.last()),
        0 <= checks_left(sts.last()),
        restarts_in(acts) + restarts_left(sts.last()) <= restarts_left(sts[0]),
        checks_in(sts) + checks_left(sts.last()) <= checks_left(sts[0]),
    decreases acts.len(),
{
    if acts.len() > 0 {
        let k = acts.len() - 1;
        let sts0 = sts.drop_last();
        let evs0 = evs.drop_last();
        let acts0 = acts.drop_last();
        assert forall|i: int| 0 <= i < acts0.len() implies flash_step_spec(
            #[trigger] sts0[i],
            evs0[i],
            n,
            want,
            sts0[i + 1],
            acts0[i],
        ) by {
            assert(flash_step_spec(sts[i], evs[i], n, want, sts[i + 1], acts[i]));
        }
        lemma_flash_run_budget(n, want, sts0, evs0, acts0);
        assert(sts0.last() == sts[k]);
        assert(flash_step_spec(sts[k], evs[k], n, want, sts[k + 1], acts[k]));
        lemma_flash_step_budget(sts[k], evs[k], n, want, sts[k + 1], acts[k]);
        assert(sts.last() == sts[k + 1]);
        assert(acts.last() == acts[k]);
    }
}

// Dataflash updates: LDROM mode (`ensure_ldrom_mode`) and the product-ID
// repair (`force_product_id`).

/// What a dataflash update sets.
#[derive(Debug)]
pub enum DfGoal {
    /// The boot flag, so that the LDROM updater runs.
    Ldrom,
    /// The product ID (4 bytes), clearing the boot flag.
    ProductId(Vec<u8>),
}

/// Where a dataflash update stands.
#[derive(Debug)]
pub enum DfState {
    Start,
    /// The dataflash was asked for.
    Reading,
    /// The new user area is being written.
    Writing,
    /// Sleeping while the device commits the sector.
    Committing,
    /// The restart is out.
    Restarting,
    /// Sleeping before check `polls` (from 0).
    PollWait { polls: u32 },
    /// Check `polls` is out.
    PollRead { polls: u32 },
    Done,
}

/// The dataflash read `df` already has what `goal` sets.
pub open spec fn goal_met(goal: DfGoal, df: Seq<u8>) -> bool {
    match goal {
        DfGoal::Ldrom => df[BOOT_FLAG_OFFSET as int] == 1,
        DfGoal::ProductId(p) => df.len() >= 320 && df.subrange(316, 320) == p@,
    }
}

/// The step of a dataflash update towards `goal`.
pub open spec fn df_step_spec(st: DfState, ev: FlashEvent, goal: DfGoal, st2: DfState, act: FlashAction) -> bool {
    match (st, ev) {
        (DfState::Start, FlashEvent::Tick) => if goal matches DfGoal::ProductId(p) && p@.len() != 4 {
            st2 is Done && fails_with(act, "product ID must be 4 ASCII bytes"@)
        } else {
            st2 is Reading && act is ReadDataflash
        },
        (DfState::Reading, FlashEvent::Dataflash(df)) => if goal matches DfGoal::ProductId(p) && p@.len() != 4 {
            st2 is Done && fails_with(act, "unexpected flash event"@)
        } else if goal_met(goal, df@) {
            st2 is Done && act == FlashAction::Finish(Ok(()))
        } else {
            st2 is Writing && (act matches FlashAction::WriteDataflash(u) && u@ == match goal {
                DfGoal::Ldrom => user_data_with(df@, None, 1),
                DfGoal::ProductId(p) => user_data_with(df@, Some(p@), 0),
            })
        },
        (DfState::Reading, FlashEvent::DataflashErr(e)) => st2 is Done && act == FlashAction::Finish(Err(e)),
        (DfState::Writing, FlashEvent::DataflashWritten(res)) => match res {
            Ok(()) => st2 is Committing && act == FlashAction::Sleep(100),
            Err(e) => st2 is Done && act == FlashAction::Finish(Err(e)),
        },
        (DfState::Committing, FlashEvent::Tick) => st2 is Restarting && act is Restart,
        (DfState::Restarting, FlashEvent::RestartOk) => st2 == (DfState::PollWait { polls: 0 }) && act
            == FlashAction::Sleep(500),
        (DfState::Restarting, FlashEvent::RestartErr(e)) => st2 is Done && act == FlashAction::Finish(Err(e)),
        (DfState::PollWait { polls }, FlashEvent::Tick) => st2 == (DfState::PollRead { polls }) && act
            is ReadDataflash,
        (DfState::PollRead { polls }, FlashEvent::Dataflash(df)) => if goal_met(goal, df@) {
            st2 is Done && act == FlashAction::Finish(Ok(()))
        } else {
            poll_on(polls, goal, st2, act)
        },
        (DfState::PollRead { polls }, FlashEvent::DataflashErr(_)) => poll_on(polls, goal, st2, act),
        _ => st2 is Done && fails_with(act, "unexpected flash event"@),
    }
}

/// After check `polls` found the goal not met: another check, up to 30,
/// else the update failed.
pub open spec fn poll_on(polls: u32, goal: DfGoal, st2: DfState, act: FlashAction) -> bool {
    if polls + 1 < 30 {
        st2 == (DfState::PollWait { polls: (polls + 1) as u32 }) && act == FlashAction::Sleep(500)
    } else {
        st2 is Done && match goal {
            DfGoal::Ldrom => act == FlashAction::Finish(Err(FirmwareError::DidNotReenumerate)),
            DfGoal::ProductId(_) => fails_with(act, "device did not come back with the repaired product ID"@),
        }
    }
}

/// The checks of a dataflash update stay under 30.
pub open spec fn df_state_wf(st: DfState) -> bool {
    match st {
        DfState::PollWait { polls } => polls < 30,
        DfState::PollRead { polls } => polls < 30,
        _ => true,
    }
}

/// Dataflash writes a dataflash update may still make from `st`.
pub open spec fn df_writes_left(st: DfState) -> int {
    match st {
        DfState::Start => 1,
        DfState::Reading => 1,
        _ => 0,
    }
}

/// Checks a dataflash update may still make from `st`.
pub open spec fn df_checks_left(st: DfState) -> int {
    match st {
        DfState::PollWait { polls } => 30 - polls,
        DfState::PollRead { polls } => 29 - polls,
        DfState::Done => 0,
        _ => 30,
    }
}

/// `sts[i]` and event `evs[i]` step to `sts[i + 1]` and action `acts[i]`.
pub open spec fn df_run(goal: DfGoal, sts: Seq<DfState>, evs: Seq<FlashEvent>, acts: Seq<FlashAction>) -> bool {
    &&& sts.len() == acts.len() + 1
    &&& evs.len() == acts.len()
    &&& forall|i: int| 0 <= i < acts.len() ==> df_step_spec(#[trigger] sts[i], evs[i], goal, sts[i + 1], acts[i])
}

/// Dataflash writes among `acts`.
pub open spec fn writes_in(acts: Seq<FlashAction>) -> nat
    decreases acts.len(),
{
    if acts.len() == 0 {
        0
    } else {
        writes_in(acts.drop_last()) + if acts.last() is WriteDataflash { 1nat } else { 0nat }
    }
}

/// Checks in a run: the steps into a `PollRead` state.
pub open spec fn df_checks_in(sts: Seq<DfState>) -> nat
    decreases sts.len(),
{
    if sts.len() <= 1 {
        0
    } else {
        df_checks_in(sts.drop_last()) + if sts.last() is PollRead { 1nat } else { 0nat }
    }
}

proof fn lemma_df_step_budget(st: DfState, ev: FlashEvent, goal: DfGoal, st2: DfState, act: FlashAction)
    requires
        df_state_wf(st),
        df_step_spec(st, ev, goal, st2, act),
    ensures
        df_state_wf(st2),
        0 <= df_writes_left(st2),
        0 <= df_checks_left(st2),
        df_writes_left(st2) + (if act is WriteDataflash { 1int } else { 0int }) <= df_writes_left(st),
        df_checks_left(st2) + (if st2 is PollRead { 1int } else { 0int }) <= df_checks_left(st),
{
}

proof fn lemma_df_run_budget(goal: DfGoal, sts: Seq<DfState>, evs: Seq<FlashEvent>, acts: Seq<FlashAction>)
    requires
        df_run(goal, sts, evs, acts),
        df_state_wf(sts[0]),
        0 <= df_checks_left(sts[0]),
    ensures
        df_state_wf(sts.last()),
        0 <= df_writes_left(sts.last()),
        0 <= df_checks_left(sts.last()),
        writes_in(acts) + df_writes_left(sts.last()) <= df_writes_left(sts[0]),
        df_checks_in(sts) + df_checks_left(sts.last()) <= df_checks_left(sts[0]),
    decreases acts.len(),
{
    if acts.len() > 0 {
        let k = acts.len() - 1;
        let sts0 = sts.drop_last();
        let evs0 = evs.drop_last();
        let acts0 = acts.drop_last();
        assert forall|i: int| 0 <= i < acts0.len() implies df_step_spec(
            #[trigger] sts0[i],
            evs0[i],
            goal,
            sts0[i + 1],
            acts0[i],
        ) by {
            assert(df_step_spec(sts[i], evs[i], goal, sts[i + 1], acts[i]));
        }
        lemma_df_run_budget(goal, sts0, evs0, acts0);
        assert(sts0.last() == sts[k]);
        assert(df_step_spec(sts[k], evs[k], goal, sts[k + 1], acts[k]));
        lemma_df_step_budget(sts[k], evs[k], goal, sts[k + 1], acts[k]);
        assert(sts.last() == sts[k + 1]);
        assert(acts.last() == acts[k]);
    }
}

/// Over any run of a dataflash update from its start, the dataflash is
/// written at most once and checked at most 30 times after the restart,
/// whatever the device answers.
pub proof fn lemma_df_run_bounded(goal: DfGoal, sts: Seq<DfState>, evs: Seq<FlashEvent>, acts: Seq<FlashAction>)
    requires
        df_run(goal, sts, evs, acts),
        sts[0] is Start,
    ensures
        writes_in(acts) <= 1,
        df_checks_in(sts) <= 30,
{
    lemma_df_run_budget(goal, sts, evs, acts);
}

fn goal_met_exec(goal: &DfGoal, df: &Vec<u8>) -> (r: bool)
    requires
        df@.len() == DATAFLASH_SIZE,
    ensures
        r == goal_met(*goal, df@),
{
    match goal {
        DfGoal::Ldrom => df[BOOT_FLAG_OFFSET] == 1,
        DfGoal::ProductId(p) => {
            if p.len() != 4 {
                return false;
            }
            let r = df[316] == p[0] && df[317] == p[1] && df[318] == p[2] && df[319] == p[3];
            assert(r ==> df@.subrange(316, 320) =~= p@);
            assert(df@.subrange(316, 320) == p@ ==> df@[316] == p@[0] && df@[317] == p@[1] && df@[318] == p@[2] && df@[319] == p@[3]);
            r
        },
    }
}

/// One step of a dataflash update towards `goal`: read the dataflash, and
/// unless it already has what the goal sets, write the patched user area,
/// let it commit, restart, and check up to 30 times that it stuck.
pub fn df_update_step(st: DfState, ev: FlashEvent, goal: &DfGoal) -> (r: (DfState, FlashAction))
    requires
        event_wf(ev),
        df_state_wf(st),
    ensures
        df_step_spec(st, ev, *goal, r.0, r.1),
        df_state_wf(r.0),
{
    match st {
        DfState::Start => match ev {
            FlashEvent::Tick => {
                match goal {
                    DfGoal::ProductId(p) => {
                        if p.len() != 4 {
                            return (DfState::Done, fail("product ID must be 4 ASCII bytes"));
                        }
                    },
                    DfGoal::Ldrom => {},
                }
                (DfState::Reading, FlashAction::ReadDataflash)
            },
            _ => (DfState::Done, unexpected()),
        },
        DfState::Reading => match ev {
            FlashEvent::Dataflash(df) => {
                if let DfGoal::ProductId(p) = goal {
                    if p.len() != 4 {
                        return (DfState::Done, unexpected());
                    }
                }
                if goal_met_exec(goal, &df) {
                    (DfState::Done, FlashAction::Finish(Ok(())))
                } else {
                    let u = match goal {
                        DfGoal::Ldrom => user_data(df.as_slice(), None, 1),
                        DfGoal::ProductId(p) => user_data(df.as_slice(), Some(p.as_slice()), 0),
                    };
                    (DfState::Writing, FlashAction::WriteDataflash(u))
                }
            },
            FlashEvent::DataflashErr(e) => (DfState::Done, FlashAction::Finish(Err(e))),
            _ => (DfState::Done, unexpected()),
        },
        DfState::Writing => match ev {
            FlashEvent::DataflashWritten(res) => match res {
                Ok(()) => (DfState::Committing, FlashAction::Sleep(100)),
                Err(e) => (DfState::Done, FlashAction::Finish(Err(e))),
            },
            _ => (DfState::Done, unexpected()),
        },
        DfState::Committing => match ev {
            FlashEvent::Tick => (DfState::Restarting, FlashAction::Restart),
            _ => (DfState::Done, unexpected()),
        },
        DfState::Restarting => match ev {
            FlashEvent::RestartOk => (DfState::PollWait { polls: 0 }, FlashAction::Sleep(500)),
            FlashEvent::RestartErr(e) => (DfState::Done, FlashAction::Finish(Err(e))),
            _ => (DfState::Done, unexpected()),
        },
        DfState::PollWait { polls } => match ev {
            FlashEvent::Tick => (DfState::PollRead { polls }, FlashAction::ReadDataflash),
            _ => (DfState::Done, unexpected()),
        },
        DfState::PollRead { polls } => match ev {
            FlashEvent::Dataflash(df) => {
                if goal_met_exec(goal, &df) {
                    (DfState::Done, FlashAction::Finish(Ok(())))
                } else {
                    poll_next(polls, goal)
                }
            },
            FlashEvent::DataflashErr(_) => poll_next(polls, goal),
            _ => (DfState::Done, unexpected()),
        },
        DfState::Done => (DfState::Done, unexpected()),
    }
}

fn poll_next(polls: u32, goal: &DfGoal) -> (r: (DfState, FlashAction))
    requires
        polls < 30,
    ensures
        poll_on(polls, *goal, r.0, r.1),
        df_state_wf(r.0),
{
    if polls + 1 < 30 {
        (DfState::PollWait { polls: polls + 1 }, FlashAction::Sleep(500))
    } else {
        match goal {
            DfGoal::Ldrom => (DfState::Done, FlashAction::Finish(Err(FirmwareError::DidNotReenumerate))),
            DfGoal::ProductId(_) => (DfState::Done, fail("device did not come back with the repaired product ID")),
        }
    }
}

// The emergency recovery flash.

/// Where a recovery flash stands.
#[derive(Debug)]
pub enum RecoveryState {
    Start,
    /// The "waiting for device" line is out.
    Announced,
    /// Sleeping before the next dataflash read.
    Backoff,
    /// A dataflash read is out.
    Reading,
    /// A device with another product ID was reported.
    Mismatch,
    /// The device was reported found.
    Found,
    /// The "flashing" line is out.
    FlashNext,
    /// The guarded flash runs.
    Flashing,
    /// The success line is out.
    Completed,
    /// The failure was reported.
    Failed,
    /// Sleeping before waiting for the device again.
    Rewait,
    Done,
}

/// The step of a recovery flash of an image of `n` bytes, waiting for a
/// device whose product ID is `want` when one is given.
pub open spec fn recovery_step_spec(
    st: RecoveryState,
    ev: FlashEvent,
    n: nat,
    want: Option<Seq<char>>,
    st2: RecoveryState,
    act: FlashAction,
) -> bool {
    match (st, ev) {
        (RecoveryState::Start, FlashEvent::Tick) => if !(MIN_FIRMWARE_SIZE <= n <= MAX_FIRMWARE_SIZE) {
            st2 is Done && fails_with(act, "implausible firmware image size: "@ + dec_text(n) + " bytes"@)
        } else {
            st2 is Announced && shows(act, waiting_line())
        },
        (RecoveryState::Announced, FlashEvent::Tick) => st2 is Reading && act is ReadDataflash,
        (RecoveryState::Backoff, FlashEvent::Tick) => st2 is Reading && act is ReadDataflash,
        (RecoveryState::Reading, FlashEvent::DataflashErr(_)) => st2 is Backoff && act == FlashAction::Sleep(500),
        (RecoveryState::Reading, FlashEvent::Dataflash(df)) => match want {
            Some(w) if pid_text(df@) != w => st2 is Mismatch && shows(
                act,
                "found "@ + pid_text(df@) + ", need "@ + w + " \u{2014} still waiting"@,
            ),
            _ => st2 is Found && shows(act, "device "@ + pid_text(df@) + " found"@),
        },
        (RecoveryState::Mismatch, FlashEvent::Tick) => st2 is Backoff && act == FlashAction::Sleep(2000),
        (RecoveryState::Found, FlashEvent::Tick) => st2 is FlashNext && shows(act, "flashing\u{2026}"@),
        (RecoveryState::FlashNext, FlashEvent::Tick) => st2 is Flashing && act is RunFlash,
        (RecoveryState::Flashing, FlashEvent::FlashDone(res)) => match res {
            Ok(()) => st2 is Completed && shows(act, "flash complete, device rebooted into flashed firmware"@),
            Err(e) => st2 is Failed && shows(
                act,
                "flash attempt failed: "@ + error_text(e) + " \u{2014} waiting for the device again"@,
            ),
        },
        (RecoveryState::Completed, FlashEvent::Tick) => st2 is Done && act == FlashAction::Finish(Ok(())),
        (RecoveryState::Failed, FlashEvent::Tick) => st2 is Rewait && act == FlashAction::Sleep(1000),
        (RecoveryState::Rewait, FlashEvent::Tick) => st2 is Announced && shows(act, waiting_line()),
        _ => st2 is Done && fails_with(act, "unexpected flash event"@),
    }
}

pub open spec fn waiting_line() -> Seq<char> {
    "waiting for device \u{2014} unplug and replug it, or hold a button while plugging in"@
}

fn waiting() -> (a: FlashAction)
    ensures
        shows(a, waiting_line()),
{
    progress("waiting for device \u{2014} unplug and replug it, or hold a button while plugging in")
}

/// One step of an emergency recovery flash of `image`: wait, as long as it
/// takes, for a device (with the product ID `expected` when one is given),
/// run the guarded flash, and wait again after a failed attempt. The image
/// size is checked before anything else.
pub fn recovery_step(st: RecoveryState, ev: FlashEvent, image: &[u8], expected: Option<&str>) -> (r: (
    RecoveryState,
    FlashAction,
))
    requires
        event_wf(ev),
    ensures
        recovery_step_spec(st, ev, image@.len(), match expected { Some(w) => Some(w@), None => None }, r.0, r.1),
        r.1 is RunFlash ==> st is FlashNext,
        r.0 is Announced && st is Start ==> MIN_FIRMWARE_SIZE <= image@.len() <= MAX_FIRMWARE_SIZE,
{
    match st {
        RecoveryState::Start => match ev {
            FlashEvent::Tick => match check_image_size(image) {
                Err(e) => (RecoveryState::Done, FlashAction::Finish(Err(e))),
                Ok(()) => (RecoveryState::Announced, waiting()),
            },
            _ => (RecoveryState::Done, unexpected()),
        },
        RecoveryState::Announced => match ev {
            FlashEvent::Tick => (RecoveryState::Reading, FlashAction::ReadDataflash),
            _ => (RecoveryState::Done, unexpected()),
        },
        RecoveryState::Backoff => match ev {
            FlashEvent::Tick => (RecoveryState::Reading, FlashAction::ReadDataflash),
            _ => (RecoveryState::Done, unexpected()),
        },
        RecoveryState::Reading => match ev {
            FlashEvent::DataflashErr(_) => (RecoveryState::Backoff, FlashAction::Sleep(500)),
            FlashEvent::Dataflash(df) => {
                let pid = utf8_lossy_string(slice_of(df.as_slice(), 316, 320).as_slice());
                let have = chars_of(pid.as_str());
                match expected {
                    Some(w) => {
                        let wanted = chars_of(w);
                        if !chars_eq(have.as_slice(), wanted.as_slice()) {
                            let mut m: Vec<char> = Vec::new();
                            push_text(&mut m, "found ");
                            push_all(&mut m, have.as_slice());
                            push_text(&mut m, ", need ");
                            push_all(&mut m, wanted.as_slice());
                            push_text(&mut m, " \u{2014} still waiting");
                            return (RecoveryState::Mismatch, FlashAction::Progress(string_from_chars(m.as_slice())));
                        }
                    },
                    None => {},
                }
                let mut m: Vec<char> = Vec::new();
                push_text(&mut m, "device ");
                push_all(&mut m, have.as_slice());
                push_text(&mut m, " found");
                (RecoveryState::Found, FlashAction::Progress(string_from_chars(m.as_slice())))
            },
            _ => (RecoveryState::Done, unexpected()),
        },
        RecoveryState::Mismatch => match ev {
            FlashEvent::Tick => (RecoveryState::Backoff, FlashAction::Sleep(2000)),
            _ => (RecoveryState::Done, unexpected()),
        },
        RecoveryState::Found => match ev {
            FlashEvent::Tick => (RecoveryState::FlashNext, progress("flashing\u{2026}")),
            _ => (RecoveryState::Done, unexpected()),
        },
        RecoveryState::FlashNext => match ev {
            FlashEvent::Tick => (RecoveryState::Flashing, FlashAction::RunFlash),
            _ => (RecoveryState::Done, unexpected()),
        },
        RecoveryState::Flashing => match ev {
            FlashEvent::FlashDone(res) => match res {
                Ok(()) => (RecoveryState::Completed, progress("flash complete, device rebooted into flashed firmware")),
                Err(e) => {
                    let mut m: Vec<char> = Vec::new();
                    push_text(&mut m, "flash attempt failed: ");
                    let t = e.message();
                    push_text(&mut m, t.as_str());
                    push_text(&mut m, " \u{2014} waiting for the device again");
                    (RecoveryState::Failed, FlashAction::Progress(string_from_chars(m.as_slice())))
                },
            },
            _ => (RecoveryState::Done, unexpected()),
        },
        RecoveryState::Completed => match ev {
            FlashEvent::Tick => (RecoveryState::Done, FlashAction::Finish(Ok(()))),
            _ => (RecoveryState::Done, unexpected()),
        },
        RecoveryState::Failed => match ev {
            FlashEvent::Tick => (RecoveryState::Rewait, FlashAction::Sleep(1000)),
            _ => (RecoveryState::Done, unexpected()),
        },
        RecoveryState::Rewait => match ev {
            FlashEvent::Tick => (RecoveryState::Announced, waiting()),
            _ => (RecoveryState::Done, unexpected()),
        },
        RecoveryState::Done => (RecoveryState::Done, unexpected()),
    }
}

fn slice_of(s: &[u8], a: usize, b: usize) -> (r: Vec<u8>)
    requires
        a <= b <= s@.len(),
    ensures
        r@ == s@.subrange(a as int, b as int),
{
    let mut out: Vec<u8> = Vec::new();
    let mut k = a;
    while k < b
        invariant
            a <= k <= b <= s@.len(),
            out@ == s@.subrange(a as int, k as int),
        decreases b - k,
    {
        out.push(s[k]);
        assert(out@ =~= s@.subrange(a as int, k + 1));
        k = k + 1;
    }
    out
}

} // verus!
