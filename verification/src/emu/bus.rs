use crate::emu::error::EmuError;
use std::collections::HashMap;
use std::ops::Range;
use vstd::prelude::*;

verus! {

broadcast use vstd::std_specs::hash::group_hash_axioms;

/// Flash (APROM image) is mapped at address 0.
pub const FLASH_BASE: u32 = 0x0000_0000;
/// SRAM base address.
pub const RAM_BASE: u32 = 0x2000_0000;
/// Nuvoton FMC ISP data register (ISPDAT); reads return the last command result.
pub const FMC_ISPDAT: u32 = 0x4000_C008;
/// SysTick control and status register.
pub const SYST_CSR: u32 = 0xE000_E010;
/// SysTick reload value register.
pub const SYST_RVR: u32 = 0xE000_E014;
/// SysTick current value register.
pub const SYST_CVR: u32 = 0xE000_E018;

/// One store as seen by the bus.
#[derive(Debug, Clone, Copy, PartialEq, Eq, Structural)]
pub struct WriteRecord {
    pub addr: u32,
    pub value: u32,
    pub size: u8,
}

/// Where an access lands.
#[derive(Debug, Clone, Copy, PartialEq, Eq, Structural)]
pub enum Region {
    Flash(usize),
    Ram(usize),
    Peripheral,
}

/// Nuvoton FMC ISP model (M451, base 0x4000C000): ISPADR/ISPDAT/ISPCMD/ISPTRG
/// at +0x04/+0x08/+0x0C/+0x10. Writing 1 to ISPTRG executes the latched
/// command at once; its result is served by later ISPDAT reads.
pub struct Fmc {
    /// LDROM dump mapped at 0x0010_0000; empty = no LDROM.
    pub ldrom: Vec<u8>,
    pub ispadr: u32,
    pub ispcmd: u32,
    pub ispdat: u32,
}

impl Fmc {
    /// LDROM base on the M451.
    pub const LDROM_BASE: u32 = 0x0010_0000;

    /// No address, command or data latched.
    pub open spec fn is_idle(&self) -> bool {
        self.ispadr == 0 && self.ispcmd == 0 && self.ispdat == 0
    }
}

impl Default for Fmc {
    fn default() -> (r: Self)
        ensures
            r.ldrom@.len() == 0,
            r.is_idle(),
    {
        Fmc { ldrom: Vec::new(), ispadr: 0, ispcmd: 0, ispdat: 0 }
    }
}

/// The Cortex-M SysTick timer, counted down once per decoded instruction.
pub struct SysTick {
    pub ctrl: u32,
    pub load: u32,
    pub val: u32,
    pub countflag: bool,
}

/// The emulated memory system: flash, RAM, an allow-list for RAM stores,
/// MMIO stubs, the FMC and SysTick peripherals, and logs of every store.
pub struct Bus {
    pub flash: Vec<u8>,
    pub ram: Vec<u8>,
    pub allow: Vec<Range<u32>>,
    pub stubs: HashMap<u32, u32>,
    /// All stores that landed in RAM.
    pub write_log: Vec<WriteRecord>,
    /// Stores outside the allow-list or into flash.
    pub acl_violations: Vec<WriteRecord>,
    /// Stores to peripheral space.
    pub dropped_writes: Vec<WriteRecord>,
    /// Nuvoton FMC ISP model.
    pub fmc: Fmc,
    pub systick: SysTick,
}

/// Abstract state of a [`Bus`].
pub struct BusView {
    pub flash: Seq<u8>,
    pub ram: Seq<u8>,
    pub allow: Seq<Range<u32>>,
    pub stubs: Map<u32, u32>,
    pub write_log: Seq<WriteRecord>,
    pub acl_violations: Seq<WriteRecord>,
    pub dropped_writes: Seq<WriteRecord>,
    pub ldrom: Seq<u8>,
    pub ispadr: u32,
    pub ispcmd: u32,
    pub ispdat: u32,
    pub st_ctrl: u32,
    pub st_load: u32,
    pub st_val: u32,
    pub st_flag: bool,
}

impl View for Bus {
    type V = BusView;

    open spec fn view(&self) -> BusView {
        BusView {
            flash: self.flash@,
            ram: self.ram@,
            allow: self.allow@,
            stubs: self.stubs@,
            write_log: self.write_log@,
            acl_violations: self.acl_violations@,
            dropped_writes: self.dropped_writes@,
            ldrom: self.fmc.ldrom@,
            ispadr: self.fmc.ispadr,
            ispcmd: self.fmc.ispcmd,
            ispdat: self.fmc.ispdat,
            st_ctrl: self.systick.ctrl,
            st_load: self.systick.load,
            st_val: self.systick.val,
            st_flag: self.systick.countflag,
        }
    }
}

/// Little-endian value of `size` bytes (1, 2 or 4) of `mem` at `off`.
pub open spec fn le_value(mem: Seq<u8>, off: int, size: u8) -> u32 {
    if size == 1 {
        mem[off] as u32
    } else if size == 2 {
        (mem[off] as u32) | ((mem[off + 1] as u32) << 8u32)
    } else {
        (mem[off] as u32) | ((mem[off + 1] as u32) << 8u32) | ((mem[off + 2] as u32) << 16u32)
            | ((mem[off + 3] as u32) << 24u32)
    }
}

/// `mem` with the low `size` bytes of `value` stored little-endian at `off`.
pub open spec fn le_store(mem: Seq<u8>, off: int, value: u32, size: u8) -> Seq<u8> {
    if size == 1 {
        mem.update(off, value as u8)
    } else if size == 2 {
        mem.update(off, value as u8).update(off + 1, (value >> 8u32) as u8)
    } else {
        mem.update(off, value as u8).update(off + 1, (value >> 8u32) as u8).update(
            off + 2,
            (value >> 16u32) as u8,
        ).update(off + 3, (value >> 24u32) as u8)
    }
}

/// Access sizes the bus serves.
pub open spec fn valid_size(size: u8) -> bool {
    size == 1 || size == 2 || size == 4
}

/// The region that holds the whole access `addr .. addr + size`, or the fault.
pub open spec fn resolve_spec(b: BusView, addr: u32, size: u8) -> Result<Region, EmuError> {
    if b.stubs.contains_key(addr) {
        Ok(Region::Peripheral)
    } else if addr - FLASH_BASE + size <= b.flash.len() {
        Ok(Region::Flash((addr - FLASH_BASE) as usize))
    } else if addr >= RAM_BASE && addr - RAM_BASE + size <= b.ram.len() {
        Ok(Region::Ram((addr - RAM_BASE) as usize))
    } else if (0x4000_0000 <= addr && addr < 0x6000_0000) || addr >= 0xE000_0000 {
        Ok(Region::Peripheral)
    } else {
        Err(EmuError::Unmapped { addr })
    }
}

/// Word the FMC ISP READ command returns for `addr`: LDROM dump first, then
/// the flash image, else 0.
pub open spec fn fmc_word_spec(ldrom: Seq<u8>, flash: Seq<u8>, addr: u32) -> u32 {
    if addr >= Fmc::LDROM_BASE && addr + 4 <= Fmc::LDROM_BASE + ldrom.len() {
        le_value(ldrom, addr - Fmc::LDROM_BASE, 4)
    } else if addr + 4 <= flash.len() {
        le_value(flash, addr as int, 4)
    } else {
        0
    }
}

/// Result of the latched ISP command.
pub open spec fn fmc_result_spec(b: BusView) -> u32 {
    if b.ispcmd == 0x00 {
        fmc_word_spec(b.ldrom, b.flash, b.ispadr)
    } else if b.ispcmd == 0x04 {
        if b.ispadr == 0x00 {
            0x1357_2468
        } else if b.ispadr == 0x04 {
            0x2468_ACE0
        } else if b.ispadr == 0x08 {
            0xBEEF_0042
        } else if b.ispadr == 0x10 {
            0x0BAD_C0DE
        } else if b.ispadr == 0x14 {
            0x1234_5678
        } else if b.ispadr == 0x18 {
            0x9ABC_DEF0
        } else {
            0
        }
    } else if b.ispcmd == 0x0B {
        0x0000_00DA
    } else if b.ispcmd == 0x0C {
        if b.ispadr == 0x00 {
            0x0D42_1000
        } else if b.ispadr == 0x04 {
            0x0000_0001
        } else {
            0
        }
    } else {
        0
    }
}

/// Value a read of peripheral address `addr` returns.
pub open spec fn peripheral_read_spec(b: BusView, addr: u32) -> u32 {
    if addr == FMC_ISPDAT {
        b.ispdat
    } else if b.stubs.contains_key(addr) {
        b.stubs[addr]
    } else if addr == SYST_CSR {
        (b.st_ctrl & 7) | (if b.st_flag { 0x1_0000u32 } else { 0u32 })
    } else if addr == SYST_RVR {
        b.st_load
    } else if addr == SYST_CVR {
        b.st_val
    } else {
        0
    }
}

/// What a read of `size` bytes at `addr` returns.
pub open spec fn read_spec(b: BusView, addr: u32, size: u8) -> Result<u32, EmuError> {
    match resolve_spec(b, addr, size) {
        Err(e) => Err(e),
        Ok(Region::Flash(off)) => Ok(le_value(b.flash, off as int, size)),
        Ok(Region::Ram(off)) => Ok(le_value(b.ram, off as int, size)),
        Ok(Region::Peripheral) => Ok(peripheral_read_spec(b, addr)),
    }
}

/// The store `addr .. addr + size` lies inside one allow region.
pub open spec fn allowed_spec(allow: Seq<Range<u32>>, addr: u32, size: u8) -> bool {
    exists|i: int|
        0 <= i < allow.len() && #[trigger] allow[i].start <= addr && addr + size <= allow[i].end
}

/// Effect of a peripheral store on the FMC and SysTick registers.
pub open spec fn peripheral_write_spec(b: BusView, addr: u32, value: u32, size: u8) -> BusView {
    if size != 4 {
        b
    } else if addr == 0x4000_C004 {
        BusView { ispadr: value, ..b }
    } else if addr == FMC_ISPDAT {
        BusView { ispdat: value, ..b }
    } else if addr == 0x4000_C00C {
        BusView { ispcmd: value, ..b }
    } else if addr == 0x4000_C010 {
        if value & 1 != 0 {
            BusView { ispdat: fmc_result_spec(b), ..b }
        } else {
            b
        }
    } else if addr == SYST_CSR {
        BusView { st_ctrl: value & 7, ..b }
    } else if addr == SYST_RVR {
        BusView { st_load: value & 0x00FF_FFFF, ..b }
    } else if addr == SYST_CVR {
        BusView { st_val: 0, st_flag: false, ..b }
    } else {
        b
    }
}

/// Outcome of a store of the low `size` bytes of `value` at `addr`.
pub open spec fn write_spec(b: BusView, addr: u32, value: u32, size: u8) -> (Result<(), EmuError>, BusView) {
    let rec = WriteRecord { addr, value, size };
    match resolve_spec(b, addr, size) {
        Err(e) => (Err(e), b),
        Ok(Region::Flash(_)) => (Ok(()), BusView { acl_violations: b.acl_violations.push(rec), ..b }),
        Ok(Region::Ram(off)) => (
            Ok(()),
            BusView {
                ram: le_store(b.ram, off as int, value, size),
                acl_violations: if allowed_spec(b.allow, addr, size) {
                    b.acl_violations
                } else {
                    b.acl_violations.push(rec)
                },
                write_log: b.write_log.push(rec),
                ..b
            },
        ),
        Ok(Region::Peripheral) => {
            let p = peripheral_write_spec(b, addr, value, size);
            (Ok(()), BusView { dropped_writes: p.dropped_writes.push(rec), ..p })
        },
    }
}

/// The low `size` bytes (1, 2 or 4) of `value`.
pub open spec fn low_bytes(value: u32, size: u8) -> u32 {
    if size == 1 {
        value & 0xFF
    } else if size == 2 {
        value & 0xFFFF
    } else {
        value
    }
}

proof fn lemma_le_bytes(v: u32)
    by (bit_vector)
    ensures
        ((v as u8) as u32) == v & 0xFF,
        ((v as u8) as u32) | ((((v >> 8u32) as u8) as u32) << 8u32) == v & 0xFFFF,
        ((v as u8) as u32) | ((((v >> 8u32) as u8) as u32) << 8u32) | ((((v >> 16u32) as u8) as u32) << 16u32)
            | ((((v >> 24u32) as u8) as u32) << 24u32) == v,
{
}

/// A RAM store is read back: reading `size` bytes where they were just
/// stored gives the stored value's low `size` bytes, whether or not the
/// store broke the write ACL.
pub proof fn lemma_ram_read_after_write(b: BusView, addr: u32, value: u32, size: u8)
    requires
        valid_size(size),
        resolve_spec(b, addr, size) matches Ok(Region::Ram(_)),
    ensures
        read_spec(write_spec(b, addr, value, size).1, addr, size) == Ok::<u32, EmuError>(low_bytes(value, size)),
{
    let after = write_spec(b, addr, value, size).1;
    assert(after.ram.len() == b.ram.len());
    assert(resolve_spec(after, addr, size) == resolve_spec(b, addr, size));
    lemma_le_bytes(value);
}

/// The bus after the stores `ws`, in order.
pub open spec fn apply_writes(b: BusView, ws: Seq<WriteRecord>) -> BusView
    decreases ws.len(),
{
    if ws.len() == 0 {
        b
    } else {
        apply_writes(write_spec(b, ws[0].addr, ws[0].value, ws[0].size).1, ws.drop_first())
    }
}

/// A stubbed address reads as its stub value, whatever region it lies in
/// and whatever stores come after the stub (the FMC data register, which
/// the FMC answers itself, excepted); a store to it succeeds, changes no
/// memory and is logged as dropped.
pub proof fn lemma_stub_reads_back(b: BusView, a: u32, ws: Seq<WriteRecord>, size: u8, value: u32)
    requires
        b.stubs.contains_key(a),
        a != FMC_ISPDAT,
        valid_size(size),
    ensures
        read_spec(b, a, size) == Ok::<u32, EmuError>(b.stubs[a]),
        apply_writes(b, ws).stubs == b.stubs,
        read_spec(apply_writes(b, ws), a, size) == Ok::<u32, EmuError>(b.stubs[a]),
        write_spec(b, a, value, size).0 == Ok::<(), EmuError>(()),
        write_spec(b, a, value, size).1.dropped_writes == b.dropped_writes.push(
            WriteRecord { addr: a, value, size },
        ),
        write_spec(b, a, value, size).1.ram == b.ram,
        write_spec(b, a, value, size).1.flash == b.flash,
        write_spec(b, a, value, size).1.stubs == b.stubs,
    decreases ws.len(),
{
    if ws.len() > 0 {
        let next = write_spec(b, ws[0].addr, ws[0].value, ws[0].size).1;
        assert(next.stubs == b.stubs);
        lemma_stub_reads_back(next, a, ws.drop_first(), size, value);
    }
}

/// One SysTick count: reload from zero, otherwise count down and raise
/// COUNTFLAG on reaching zero. Nothing happens while the timer is disabled.
pub open spec fn tick_spec(b: BusView) -> BusView {
    if b.st_ctrl & 1 == 0 {
        b
    } else if b.st_val == 0 {
        BusView { st_val: b.st_load, ..b }
    } else {
        BusView { st_val: (b.st_val - 1) as u32, st_flag: b.st_flag || b.st_val == 1, ..b }
    }
}

/// Start of an instruction: COUNTFLAG, raised by the previous instruction's
/// tick, stops being reported.
pub open spec fn begin_step_spec(b: BusView) -> BusView {
    BusView { st_flag: false, ..b }
}

impl Bus {
    /// A bus with `flash` mapped at 0 and `ram_size` zeroed bytes of RAM,
    /// no allow regions, no stubs, empty logs and idle peripherals.
    pub fn new(flash: Vec<u8>, ram_size: usize) -> (b: Self)
        ensures
            b@.flash == flash@,
            b@.ram == Seq::new(ram_size as nat, |i: int| 0u8),
            b@.allow.len() == 0,
            b@.stubs == Map::<u32, u32>::empty(),
            b@.write_log.len() == 0,
            b@.acl_violations.len() == 0,
            b@.dropped_writes.len() == 0,
            b@.ldrom.len() == 0,
            b@.ispadr == 0 && b@.ispcmd == 0 && b@.ispdat == 0,
            b@.st_ctrl == 0 && b@.st_load == 0 && b@.st_val == 0 && !b@.st_flag,
    {
        let b = Bus {
            flash,
            ram: vec![0u8; ram_size],
            allow: Vec::new(),
            stubs: HashMap::new(),
            write_log: Vec::new(),
            acl_violations: Vec::new(),
            dropped_writes: Vec::new(),
            fmc: Fmc::default(),
            systick: SysTick { ctrl: 0, load: 0, val: 0, countflag: false },
        };
        assert(b@.ram =~= Seq::new(ram_size as nat, |i: int| 0u8));
        b
    }

    /// Allow RAM stores inside `range`.
    pub fn allow_region(&mut self, range: Range<u32>)
        ensures
            final(self)@ == (BusView { allow: old(self)@.allow.push(range), ..old(self)@ }),
    {
        self.allow.push(range);
    }

    /// Make `addr` an MMIO stub: reads return `value`, writes are dropped.
    pub fn set_stub(&mut self, addr: u32, value: u32)
        ensures
            final(self)@ == (BusView { stubs: old(self)@.stubs.insert(addr, value), ..old(self)@ }),
    {
        self.stubs.insert(addr, value);
    }

    fn resolve(&self, addr: u32, size: u8) -> (r: Result<Region, EmuError>)
        requires
            valid_size(size),
        ensures
            r == resolve_spec(self@, addr, size),
    {
        let size64 = size as u64;
        if self.stubs.contains_key(&addr) {
            return Ok(Region::Peripheral);
        }
        if (addr - FLASH_BASE) as u64 + size64 <= self.flash.len() as u64 {
            Ok(Region::Flash((addr - FLASH_BASE) as usize))
        } else if addr >= RAM_BASE && (addr - RAM_BASE) as u64 + size64 <= self.ram.len() as u64 {
            Ok(Region::Ram((addr - RAM_BASE) as usize))
        } else if (0x4000_0000 <= addr && addr < 0x6000_0000) || addr >= 0xE000_0000 {
            Ok(Region::Peripheral)
        } else {
            Err(EmuError::Unmapped { addr })
        }
    }

    fn read_le(mem: &Vec<u8>, off: usize, size: u8) -> (v: u32)
        requires
            valid_size(size),
            off + size <= mem@.len(),
        ensures
            v == le_value(mem@, off as int, size),
    {
        let n = mem.len();
        assert(off + size <= n);
        let b0 = mem[off] as u32;
        if size == 1 {
            b0
        } else if size == 2 {
            let b1 = mem[off + 1] as u32;
            assert(b1 << 8u32 <= 0xFFFF_FFFF) by (bit_vector);
            b0 | (b1 << 8u32)
        } else {
            let b1 = mem[off + 1] as u32;
            let b2 = mem[off + 2] as u32;
            let b3 = mem[off + 3] as u32;
            b0 | (b1 << 8u32) | (b2 << 16u32) | (b3 << 24u32)
        }
    }

    fn fmc_word(&self, addr: u32) -> (v: u32)
        ensures
            v == fmc_word_spec(self@.ldrom, self@.flash, addr),
    {
        let a = addr as u64;
        let ld_lo = Fmc::LDROM_BASE as u64;
        if a >= ld_lo && a - ld_lo + 4 <= self.fmc.ldrom.len() as u64 {
            Self::read_le(&self.fmc.ldrom, (addr - Fmc::LDROM_BASE) as usize, 4)
        } else if a + 4 <= self.flash.len() as u64 {
            Self::read_le(&self.flash, addr as usize, 4)
        } else {
            0
        }
    }

    fn fmc_result(&self) -> (v: u32)
        ensures
            v == fmc_result_spec(self@),
    {
        let adr = self.fmc.ispadr;
        match self.fmc.ispcmd {
            0x00 => self.fmc_word(adr),
            0x04 => match adr {
                0x00 => 0x1357_2468,
                0x04 => 0x2468_ACE0,
                0x08 => 0xBEEF_0042,
                0x10 => 0x0BAD_C0DE,
                0x14 => 0x1234_5678,
                0x18 => 0x9ABC_DEF0,
                _ => 0,
            },
            0x0B => 0x0000_00DA,
            0x0C => match adr {
                0x00 => 0x0D42_1000,
                0x04 => 0x0000_0001,
                _ => 0,
            },
            _ => 0,
        }
    }

    fn peripheral_read(&self, addr: u32) -> (v: u32)
        ensures
            v == peripheral_read_spec(self@, addr),
    {
        if addr == FMC_ISPDAT {
            return self.fmc.ispdat;
        }
        match self.stubs.get(&addr) {
            Some(v) => *v,
            None => {
                if addr == SYST_CSR {
                    (self.systick.ctrl & 7) | (if self.systick.countflag { 0x1_0000u32 } else { 0u32 })
                } else if addr == SYST_RVR {
                    self.systick.load
                } else if addr == SYST_CVR {
                    self.systick.val
                } else {
                    0
                }
            },
        }
    }

    fn read(&self, addr: u32, size: u8) -> (r: Result<u32, EmuError>)
        requires
            valid_size(size),
        ensures
            r == read_spec(self@, addr, size),
    {
        match self.resolve(addr, size)? {
            Region::Flash(off) => Ok(Self::read_le(&self.flash, off, size)),
            Region::Ram(off) => Ok(Self::read_le(&self.ram, off, size)),
            Region::Peripheral => Ok(self.peripheral_read(addr)),
        }
    }

    /// Byte read.
    pub fn read_u8(&self, addr: u32) -> (r: Result<u8, EmuError>)
        ensures
            match read_spec(self@, addr, 1) {
                Ok(v) => r == Ok::<u8, EmuError>(v as u8),
                Err(e) => r == Err::<u8, EmuError>(e),
            },
    {
        Ok(self.read(addr, 1)? as u8)
    }

    /// Little-endian halfword read; any alignment.
    pub fn read_u16(&self, addr: u32) -> (r: Result<u16, EmuError>)
        ensures
            match read_spec(self@, addr, 2) {
                Ok(v) => r == Ok::<u16, EmuError>(v as u16),
                Err(e) => r == Err::<u16, EmuError>(e),
            },
    {
        Ok(self.read(addr, 2)? as u16)
    }

    /// Little-endian word read; any alignment.
    pub fn read_u32(&self, addr: u32) -> (r: Result<u32, EmuError>)
        ensures
            r == read_spec(self@, addr, 4),
    {
        self.read(addr, 4)
    }

    fn allowed(&self, addr: u32, size: u8) -> (r: bool)
        ensures
            r == allowed_spec(self@.allow, addr, size),
    {
        let start = addr as u64;
        let end = addr as u64 + size as u64;
        let mut i: usize = 0;
        while i < self.allow.len()
            invariant
                0 <= i <= self.allow@.len(),
                start == addr,
                end == addr + size,
                forall|j: int|
                    0 <= j < i ==> !(#[trigger] self.allow@[j].start <= addr && addr + size
                        <= self.allow@[j].end),
            decreases self.allow@.len() - i,
        {
            let r = &self.allow[i];
            if r.start as u64 <= start && end <= r.end as u64 {
                return true;
            }
            i += 1;
        }
        false
    }

    fn write(&mut self, addr: u32, value: u32, size: u8) -> (r: Result<(), EmuError>)
        requires
            valid_size(size),
        ensures
            (r, final(self)@) == write_spec(old(self)@, addr, value, size),
    {
        let record = WriteRecord { addr, value, size };
        match self.resolve(addr, size)? {
            Region::Flash(_) => {
                self.acl_violations.push(record);
            },
            Region::Ram(off) => {
                let ghost old_ram = self.ram@;
                self.ram[off] = value as u8;
                if size >= 2 {
                    self.ram[off + 1] = (value >> 8u32) as u8;
                }
                if size == 4 {
                    self.ram[off + 2] = (value >> 16u32) as u8;
                    self.ram[off + 3] = (value >> 24u32) as u8;
                }
                assert(self.ram@ =~= le_store(old_ram, off as int, value, size));
                if !self.allowed(addr, size) {
                    self.acl_violations.push(record);
                }
                self.write_log.push(record);
            },
            Region::Peripheral => {
                if size == 4 {
                    if addr == 0x4000_C004 {
                        self.fmc.ispadr = value;
                    } else if addr == FMC_ISPDAT {
                        self.fmc.ispdat = value;
                    } else if addr == 0x4000_C00C {
                        self.fmc.ispcmd = value;
                    } else if addr == 0x4000_C010 {
                        if value & 1 != 0 {
                            let d = self.fmc_result();
                            self.fmc.ispdat = d;
                        }
                    } else if addr == SYST_CSR {
                        self.systick.ctrl = value & 7;
                    } else if addr == SYST_RVR {
                        self.systick.load = value & 0x00FF_FFFF;
                    } else if addr == SYST_CVR {
                        self.systick.val = 0;
                        self.systick.countflag = false;
                    }
                }
                self.dropped_writes.push(record);
            },
        }
        Ok(())
    }

    /// Byte store.
    pub fn write_u8(&mut self, addr: u32, value: u8) -> (r: Result<(), EmuError>)
        ensures
            (r, final(self)@) == write_spec(old(self)@, addr, value as u32, 1),
    {
        self.write(addr, value as u32, 1)
    }

    /// Little-endian halfword store; any alignment.
    pub fn write_u16(&mut self, addr: u32, value: u16) -> (r: Result<(), EmuError>)
        ensures
            (r, final(self)@) == write_spec(old(self)@, addr, value as u32, 2),
    {
        self.write(addr, value as u32, 2)
    }

    /// Little-endian word store; any alignment.
    pub fn write_u32(&mut self, addr: u32, value: u32) -> (r: Result<(), EmuError>)
        ensures
            (r, final(self)@) == write_spec(old(self)@, addr, value, 4),
    {
        self.write(addr, value, 4)
    }

    /// One core clock as seen by SysTick (called once per decoded instruction).
    pub fn advance_core_tick(&mut self)
        ensures
            final(self)@ == tick_spec(old(self)@),
    {
        if self.systick.ctrl & 1 != 0 {
            if self.systick.val == 0 {
                self.systick.val = self.systick.load;
            } else {
                self.systick.val = self.systick.val - 1;
                if self.systick.val == 0 {
                    self.systick.countflag = true;
                }
            }
        }
    }

    /// Start of an instruction: the COUNTFLAG raised by the previous tick is
    /// no longer reported.
    pub fn begin_step(&mut self)
        ensures
            final(self)@ == begin_step_spec(old(self)@),
    {
        self.systick.countflag = false;
    }
}

} // verus!
