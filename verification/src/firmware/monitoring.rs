//! The fields of the 64-byte "ReadMonitoringData" HID report, as the
//! firmware stores them (integers, before scaling to SI units).

use crate::firmware::error::FirmwareError;
use crate::firmware::text::{dec_text, push_dec, push_text, string_from_chars};
use vstd::prelude::*;

verus! {

/// Monitoring telemetry payload size in bytes.
pub const MONITORING_DATA_SIZE: usize = 64;

/// One monitoring sample as stored (packed little-endian): u32 @0 timestamp
/// (seconds x 100), u8 @4 firing, u8 @5 charging, u8 @6 Celsius, u8 @7..10
/// cell voltages (0 = absent, V = (raw + 275) / 100), u16 @11 power set
/// (W x 10), u16 @13 temperature set, u16 @15 temperature, u16 @17 output
/// voltage (V x 100), u16 @19 output current (A x 100), u16 @21 resistance
/// (ohm x 1000), u16 @23 live resistance (ohm x 1000), u8 @25 board
/// temperature (deg C).
#[derive(Debug, Clone, Copy)]
pub struct MonitoringRaw {
    pub timestamp: u32,
    pub is_firing: bool,
    pub is_charging: bool,
    pub is_celsius: bool,
    pub battery: [u8; 4],
    pub power_set: u16,
    pub temperature_set: u16,
    pub temperature: u16,
    pub output_voltage: u16,
    pub output_current: u16,
    pub resistance: u16,
    pub real_resistance: u16,
    pub board_temperature: u8,
}

/// Little-endian u16 at `o` of `b`.
pub open spec fn u16_at(b: Seq<u8>, o: int) -> u16 {
    (b[o] as u16 | (b[o + 1] as u16) << 8u16) as u16
}

/// Little-endian u32 at `o` of `b`.
pub open spec fn u32_at(b: Seq<u8>, o: int) -> u32 {
    (b[o] as u32 | (b[o + 1] as u32) << 8u32 | (b[o + 2] as u32) << 16u32 | (b[o + 3] as u32) << 24u32) as u32
}

/// The sample a report `b` holds.
pub open spec fn sample_of(b: Seq<u8>) -> MonitoringRaw {
    MonitoringRaw {
        timestamp: u32_at(b, 0),
        is_firing: b[4] != 0,
        is_charging: b[5] != 0,
        is_celsius: b[6] != 0,
        battery: [b[7], b[8], b[9], b[10]],
        power_set: u16_at(b, 11),
        temperature_set: u16_at(b, 13),
        temperature: u16_at(b, 15),
        output_voltage: u16_at(b, 17),
        output_current: u16_at(b, 19),
        resistance: u16_at(b, 21),
        real_resistance: u16_at(b, 23),
        board_temperature: b[25],
    }
}

proof fn lemma_le_value(x0: u8, x1: u8, x2: u8, x3: u8)
    by (bit_vector)
    ensures
        (x0 as u16 | (x1 as u16) << 8u16) as u16 == x0 + 256 * x1,
        (x0 as u32 | (x1 as u32) << 8u32 | (x2 as u32) << 16u32 | (x3 as u32) << 24u32) as u32 == x0 + 256 * x1
            + 65536 * x2 + 16777216 * x3,
{
}

/// The layout of a monitoring report: cell `i` is byte `7 + i`, the flags
/// are bytes 4 to 6 (non-zero is set), the board temperature is byte 25,
/// and the timestamp and the two-byte fields are little-endian numbers at
/// their offsets.
pub proof fn lemma_monitoring_layout(b: Seq<u8>)
    requires
        b.len() >= MONITORING_DATA_SIZE,
    ensures
        ({
            let m = sample_of(b);
            &&& forall|i: int| 0 <= i < 4 ==> #[trigger] m.battery@[i] == b[7 + i]
            &&& m.timestamp == b[0] + 256 * b[1] + 65536 * b[2] + 16777216 * b[3]
            &&& m.is_firing == (b[4] != 0)
            &&& m.is_charging == (b[5] != 0)
            &&& m.is_celsius == (b[6] != 0)
            &&& m.power_set == b[11] + 256 * b[12]
            &&& m.temperature_set == b[13] + 256 * b[14]
            &&& m.temperature == b[15] + 256 * b[16]
            &&& m.output_voltage == b[17] + 256 * b[18]
            &&& m.output_current == b[19] + 256 * b[20]
            &&& m.resistance == b[21] + 256 * b[22]
            &&& m.real_resistance == b[23] + 256 * b[24]
            &&& m.board_temperature == b[25]
        }),
{
    lemma_le_value(b[0], b[1], b[2], b[3]);
    lemma_le_value(b[11], b[12], 0, 0);
    lemma_le_value(b[13], b[14], 0, 0);
    lemma_le_value(b[15], b[16], 0, 0);
    lemma_le_value(b[17], b[18], 0, 0);
    lemma_le_value(b[19], b[20], 0, 0);
    lemma_le_value(b[21], b[22], 0, 0);
    lemma_le_value(b[23], b[24], 0, 0);
    let m = sample_of(b);
    assert forall|i: int| 0 <= i < 4 implies #[trigger] m.battery@[i] == b[7 + i] by {
        assert(m.battery@ == seq![b[7], b[8], b[9], b[10]]);
    }
}

fn u16_exec(b: &[u8], o: usize) -> (v: u16)
    requires
        o + 2 <= b@.len(),
    ensures
        v == u16_at(b@, o as int),
{
    (b[o] as u16 | (b[o + 1] as u16) << 8u16) as u16
}

/// Read the fields of a monitoring report; reports under 64 bytes are
/// refused.
pub fn decode_monitoring_raw(buf: &[u8]) -> (r: Result<MonitoringRaw, FirmwareError>)
    ensures
        buf@.len() < MONITORING_DATA_SIZE ==> (r matches Err(FirmwareError::Other(m)) && m@ == "monitoring payload too short: "@
            + dec_text(buf@.len()) + " bytes"@),
        buf@.len() >= MONITORING_DATA_SIZE ==> r == Ok::<MonitoringRaw, FirmwareError>(sample_of(buf@)),
{
    if buf.len() < MONITORING_DATA_SIZE {
        let mut m: Vec<char> = Vec::new();
        push_text(&mut m, "monitoring payload too short: ");
        push_dec(&mut m, buf.len() as u128);
        push_text(&mut m, " bytes");
        return Err(FirmwareError::Other(string_from_chars(m.as_slice())));
    }
    let m = MonitoringRaw {
        timestamp: (buf[0] as u32 | (buf[1] as u32) << 8u32 | (buf[2] as u32) << 16u32 | (buf[3] as u32) << 24u32) as u32,
        is_firing: buf[4] != 0,
        is_charging: buf[5] != 0,
        is_celsius: buf[6] != 0,
        battery: [buf[7], buf[8], buf[9], buf[10]],
        power_set: u16_exec(buf, 11),
        temperature_set: u16_exec(buf, 13),
        temperature: u16_exec(buf, 15),
        output_voltage: u16_exec(buf, 17),
        output_current: u16_exec(buf, 19),
        resistance: u16_exec(buf, 21),
        real_resistance: u16_exec(buf, 23),
        board_temperature: buf[25],
    };
    assert(m.battery@ =~= sample_of(buf@).battery@);
    Ok(m)
}

} // verus!
