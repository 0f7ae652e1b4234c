use vstd::prelude::*;

verus! {

/// Faults raised by the emulator: bus, decoder, run loop and harness.
#[derive(Debug)]
pub enum EmuError {
    /// An access touched an address no region maps.
    Unmapped { addr: u32 },
    /// An access that must be aligned was not.
    Unaligned { addr: u32, size: u8 },
    /// The halfword at `pc` does not decode.
    Undefined { pc: u32, instr: u16 },
    /// The run loop executed its whole budget without reaching the stop pc.
    BudgetExceeded { executed: u64 },
    /// A harness-level failure (bad descriptor, ACL violation, stack fault).
    Descriptor(String),
}

} // verus!
