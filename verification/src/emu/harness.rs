//! Descriptor-driven harness: builds a bus and a core from a descriptor,
//! runs one call of a render function, and extracts the display buffer as a
//! frame.

use crate::emu::bus::{read_spec, write_spec, Bus, BusView, RAM_BASE};
use crate::emu::cpu::{run_spec, Cpu};
use crate::emu::dump::{dump_text, hex_word, push_hex, push_records, records_text};
use crate::emu::error::EmuError;
use crate::emu::semantics::Core;
use crate::firmware::text::{chars_of, parse_unsigned, parse_unsigned_exec, push_text, string_from_chars};
use std::ops::Range;
use vstd::prelude::*;
use vstd::string::*;

verus! {

/// Branch target `bx lr` lands on when the render function returns; the run
/// loop stops there. Even address, never valid Thumb code.
pub const RETURN_SENTINEL: u32 = 0xFFFF_FFFE;

/// Value kept at the bottom of the stack region.
pub const STACK_CANARY: u32 = 0xDEAD_C0DE;

/// Size of the stack region at the top of RAM.
pub const STACK_SIZE: u32 = 0x2000;

/// RAM size used when a descriptor gives none.
pub const DEFAULT_RAM_SIZE: usize = 0x8000;

#[derive(Debug, Clone, Copy)]
pub struct AddrRange {
    pub start: u32,
    pub end: u32,
}

#[derive(Debug, Clone, Copy)]
pub struct DisplayBuffer {
    pub range: AddrRange,
    pub width: usize,
    pub height: usize,
}

/// An MMIO stub: reads at `addr` return `value`, writes are dropped.
#[derive(Debug, Clone, Copy)]
pub struct Stub {
    pub addr: u32,
    pub value: u32,
}

/// What the harness needs to know of a build.
#[derive(Debug)]
pub struct Descriptor {
    pub build: String,
    pub render_entry: u32,
    pub display_buffer: DisplayBuffer,
    pub ram_globals: Vec<AddrRange>,
    /// 0 means the default of 0x8000.
    pub ram_size: usize,
    /// r0..r3 at entry.
    pub args: [u32; 4],
    pub stubs: Vec<Stub>,
}

/// A frame: one byte per pixel (0 or 1), row-major.
#[derive(Debug, Clone)]
pub struct Frame {
    pub width: usize,
    pub height: usize,
    pub pixels: Vec<u8>,
}

/// The number written in `s`: `0x`/`0X` and hex digits, or decimal digits.
pub open spec fn u32_text(s: Seq<char>) -> Option<nat> {
    if s.len() >= 2 && s[0] == '0' && (s[1] == 'x' || s[1] == 'X') {
        parse_unsigned(s, 2, s.len() as int, 16, u32::MAX as nat)
    } else {
        parse_unsigned(s, 0, s.len() as int, 10, u32::MAX as nat)
    }
}

/// Read an address of a descriptor: `"0x20001000"` hex or `"536879104"`
/// decimal.
pub fn parse_u32_text(s: &str) -> (r: Option<u32>)
    ensures
        match u32_text(s@) {
            Some(v) => r == Some(v as u32),
            None => r is None,
        },
{
    let cs = chars_of(s);
    let v = if cs.len() >= 2 && cs[0] == '0' && (cs[1] == 'x' || cs[1] == 'X') {
        parse_unsigned_exec(cs.as_slice(), 2, cs.len(), 16, 0xFFFF_FFFF)
    } else {
        parse_unsigned_exec(cs.as_slice(), 0, cs.len(), 10, 0xFFFF_FFFF)
    };
    match v {
        Some(x) => Some(x as u32),
        None => None,
    }
}

/// The RAM size a descriptor asks for.
pub open spec fn ram_size_of(d: Descriptor) -> nat {
    if d.ram_size == 0 {
        DEFAULT_RAM_SIZE as nat
    } else {
        d.ram_size as nat
    }
}

/// Top of RAM.
pub open spec fn ram_top_of(d: Descriptor) -> int {
    RAM_BASE + (ram_size_of(d) as int % 0x1_0000_0000)
}

/// Bottom of the stack region, where the canary lives.
pub open spec fn stack_bottom_of(d: Descriptor) -> int {
    ram_top_of(d) - STACK_SIZE
}

/// The stubs, later ones over earlier ones.
pub open spec fn stub_map(stubs: Seq<Stub>) -> Map<u32, u32>
    decreases stubs.len(),
{
    if stubs.len() == 0 {
        Map::empty()
    } else {
        stub_map(stubs.drop_last()).insert(stubs.last().addr, stubs.last().value)
    }
}

/// The allow-list: the display buffer, the RAM globals, the stack region.
pub open spec fn allow_list(d: Descriptor) -> Seq<Range<u32>> {
    seq![(d.display_buffer.range.start..d.display_buffer.range.end)]
        + d.ram_globals@.map_values(|g: AddrRange| g.start..g.end)
        + seq![((stack_bottom_of(d) as u32)..(ram_top_of(d) as u32))]
}

/// The bus before the canary is written.
pub open spec fn fresh_bus(image: Seq<u8>, d: Descriptor) -> BusView {
    BusView {
        flash: image,
        ram: Seq::new(ram_size_of(d), |i: int| 0u8),
        allow: allow_list(d),
        stubs: stub_map(d.stubs@),
        write_log: seq![],
        acl_violations: seq![],
        dropped_writes: seq![],
        ldrom: seq![],
        ispadr: 0,
        ispcmd: 0,
        ispdat: 0,
        st_ctrl: 0,
        st_load: 0,
        st_val: 0,
        st_flag: false,
    }
}

/// The harness for `d` can be built: RAM ends below 4 GiB, holds the stack
/// region, and the canary store lands somewhere.
pub open spec fn harness_ok(image: Seq<u8>, d: Descriptor) -> bool {
    &&& ram_top_of(d) <= u32::MAX
    &&& ram_top_of(d) >= STACK_SIZE
    &&& write_spec(fresh_bus(image, d), stack_bottom_of(d) as u32, STACK_CANARY, 4).0 is Ok
}

/// The core at the start of a run: the args in r0..r3, sp 256 bytes below
/// the top of RAM, lr at the return sentinel.
pub open spec fn fresh_core(d: Descriptor) -> Core {
    Core {
        r: Seq::new(13, |i: int| if i < 4 { d.args@[i] } else { 0u32 }),
        sp: (ram_top_of(d) - 0x100) as u32,
        lr: RETURN_SENTINEL | 1,
        pc: 0,
        n: false,
        z: false,
        c: false,
        v: false,
        it_left: 0,
        it_conds: 0,
    }
}

/// The frame a display buffer `buf` holds: horizontal 1bpp packing, MSB the
/// leftmost pixel, `width / 8` bytes per row.
pub open spec fn unpack_spec(buf: Seq<u8>, w: nat, h: nat) -> Seq<u8> {
    Seq::new(
        w * h,
        |i: int| {
            let y = i / (w as int);
            let x = i % (w as int);
            (buf[y * ((w / 8) as int) + x / 8] >> ((7 - x % 8) as u8)) & 1
        },
    )
}

/// Every byte the unpacking reads lies in a buffer of `len` bytes.
pub open spec fn unpack_fits(len: nat, w: nat, h: nat) -> bool {
    w == 0 || h == 0 || (h - 1) * (w / 8) + (w - 1) / 8 < len
}

/// Bytes `start..start+n` of the bus, read one by one.
pub open spec fn read_bytes(b: BusView, start: u32, n: nat) -> Result<Seq<u8>, EmuError>
    decreases n,
{
    if n == 0 {
        Ok(seq![])
    } else {
        match read_bytes(b, start, (n - 1) as nat) {
            Err(e) => Err(e),
            Ok(s) => match read_spec(b, (start + n - 1) as u32, 1) {
                Err(e) => Err(e),
                Ok(v) => Ok(s.push(v as u8)),
            },
        }
    }
}

proof fn lemma_read_bytes_len(b: BusView, start: u32, n: nat)
    ensures
        read_bytes(b, start, n) matches Ok(s) ==> s.len() == n,
    decreases n,
{
    if n > 0 {
        lemma_read_bytes_len(b, start, (n - 1) as nat);
    }
}

proof fn lemma_read_bytes_err(b: BusView, start: u32, i: nat, k: nat)
    requires
        1 <= i <= k,
        read_bytes(b, start, i) is Err,
    ensures
        read_bytes(b, start, k) == read_bytes(b, start, i),
    decreases k - i,
{
    if k > i {
        lemma_read_bytes_err(b, start, i, (k - 1) as nat);
    }
}

pub struct Harness {
    pub cpu: Cpu,
    pub bus: Bus,
    pub desc: Descriptor,
    /// Bottom of the allowed stack region: the canary lives here, and sp is
    /// never allowed to dip below it.
    pub stack_bottom: u32,
    /// Address of the stack canary, re-checked after every run.
    pub canary_addr: u32,
}

/// What a run of the render function leaves before the display buffer is
/// read: the run's own error, or a refusal for a store outside the
/// allow-list, a stack pointer below the region, or a corrupted canary.
pub enum RunCheck {
    Failed(EmuError),
    AclViolation,
    StackUnderflow,
    CanaryCorrupted,
    Clean,
}

/// The core a run starts from.
pub open spec fn run_start(c: Core, entry: u32) -> Core {
    Core { pc: entry & !1u32, lr: RETURN_SENTINEL | 1, ..c }
}

impl Harness {
    /// Build the bus and the core for `desc`: the image as flash, zeroed RAM,
    /// an allow-list of the display buffer, the RAM globals and an 8 KiB
    /// stack region at the top of RAM, the stubs, the canary at the bottom of
    /// the stack, and sp 256 bytes below the top.
    pub fn new(image: &[u8], desc: Descriptor) -> (h: Self)
        requires
            harness_ok(image@, desc),
        ensures
            h.bus@ == write_spec(fresh_bus(image@, desc), stack_bottom_of(desc) as u32, STACK_CANARY, 4).1,
            h.cpu.state() == fresh_core(desc),
            h.cpu.min_sp == u32::MAX,
            h.cpu.trace@.len() == 0,
            h.desc == desc,
            h.stack_bottom == stack_bottom_of(desc),
            h.canary_addr == stack_bottom_of(desc),
    {
        let ram_size = if desc.ram_size == 0 {
            DEFAULT_RAM_SIZE
        } else {
            desc.ram_size
        };
        let mut flash: Vec<u8> = Vec::new();
        let mut i: usize = 0;
        while i < image.len()
            invariant
                0 <= i <= image@.len(),
                flash@ == image@.subrange(0, i as int),
            decreases image@.len() - i,
        {
            flash.push(image[i]);
            assert(flash@ =~= image@.subrange(0, i + 1));
            i = i + 1;
        }
        assert(flash@ =~= image@);
        let mut bus = Bus::new(flash, ram_size);
        bus.allow_region(desc.display_buffer.range.start..desc.display_buffer.range.end);
        let ghost allow0 = bus@.allow;
        let mut g: usize = 0;
        while g < desc.ram_globals.len()
            invariant
                0 <= g <= desc.ram_globals@.len(),
                bus@.allow == allow0 + desc.ram_globals@.subrange(0, g as int).map_values(|r: AddrRange| r.start..r.end),
                bus@.flash == image@,
                bus@.ram == Seq::new(ram_size as nat, |i: int| 0u8),
                bus@.stubs == Map::<u32, u32>::empty(),
                bus@.write_log.len() == 0,
                bus@.acl_violations.len() == 0,
                bus@.dropped_writes.len() == 0,
                bus@.ldrom.len() == 0,
                bus@.ispadr == 0 && bus@.ispcmd == 0 && bus@.ispdat == 0,
                bus@.st_ctrl == 0 && bus@.st_load == 0 && bus@.st_val == 0 && !bus@.st_flag,
            decreases desc.ram_globals@.len() - g,
        {
            let r = desc.ram_globals[g];
            bus.allow_region(r.start..r.end);
            assert(bus@.allow =~= allow0 + desc.ram_globals@.subrange(0, g + 1).map_values(|r: AddrRange| r.start..r.end));
            g = g + 1;
        }
        assert(desc.ram_globals@.subrange(0, desc.ram_globals@.len() as int) =~= desc.ram_globals@);
        let ghost allow1 = bus@.allow;
        let mut k: usize = 0;
        while k < desc.stubs.len()
            invariant
                0 <= k <= desc.stubs@.len(),
                bus@.stubs == stub_map(desc.stubs@.subrange(0, k as int)),
                bus@.allow == allow1,
                bus@.flash == image@,
                bus@.ram == Seq::new(ram_size as nat, |i: int| 0u8),
                bus@.write_log.len() == 0,
                bus@.acl_violations.len() == 0,
                bus@.dropped_writes.len() == 0,
                bus@.ldrom.len() == 0,
                bus@.ispadr == 0 && bus@.ispcmd == 0 && bus@.ispdat == 0,
                bus@.st_ctrl == 0 && bus@.st_load == 0 && bus@.st_val == 0 && !bus@.st_flag,
            decreases desc.stubs@.len() - k,
        {
            let s = desc.stubs[k];
            assert(desc.stubs@.subrange(0, k + 1).drop_last() =~= desc.stubs@.subrange(0, k as int));
            bus.set_stub(s.addr, s.value);
            k = k + 1;
        }
        assert(desc.stubs@.subrange(0, desc.stubs@.len() as int) =~= desc.stubs@);
        let ram_top = RAM_BASE + (ram_size as u64 % 0x1_0000_0000) as u32;
        let stack_bottom = ram_top - STACK_SIZE;
        bus.allow_region(stack_bottom..ram_top);
        proof {
            assert(bus@.write_log =~= Seq::<crate::emu::bus::WriteRecord>::empty());
            assert(bus@.acl_violations =~= Seq::<crate::emu::bus::WriteRecord>::empty());
            assert(bus@.dropped_writes =~= Seq::<crate::emu::bus::WriteRecord>::empty());
            assert(bus@.ldrom =~= Seq::<u8>::empty());
            assert(bus@.allow =~= allow_list(desc));
            assert(bus@ == fresh_bus(image@, desc));
        }
        let canary_addr = stack_bottom;
        let w = bus.write_u32(canary_addr, STACK_CANARY);
        let mut cpu = Cpu::new();
        cpu.sp = ram_top - 0x100;
        cpu.lr = RETURN_SENTINEL | 1;
        cpu.r[0] = desc.args[0];
        cpu.r[1] = desc.args[1];
        cpu.r[2] = desc.args[2];
        cpu.r[3] = desc.args[3];
        assert(cpu.state().r =~= fresh_core(desc).r);
        Harness { cpu, bus, desc, stack_bottom, canary_addr }
    }

    /// Run the render entry point once and unpack the display buffer. A store
    /// outside the allow-list, a stack pointer below the stack region, or a
    /// corrupted canary is refused with a `Descriptor` error that carries a
    /// dump of the core.
    #[verifier::rlimit(40)]
    pub fn run_frame(&mut self, budget: u64) -> (r: Result<Frame, EmuError>)
        requires
            ({
                let (res, s1, b1, m1, t1) = run_spec(
                    run_start(old(self).cpu.state(), old(self).desc.render_entry),
                    old(self).bus@,
                    RETURN_SENTINEL,
                    budget,
                    0,
                    old(self).cpu.sp,
                    old(self).cpu.trace@,
                );
                let d = old(self).desc.display_buffer;
                (res is Ok && b1.acl_violations.len() == 0 && m1 >= old(self).stack_bottom && read_spec(
                    b1,
                    old(self).canary_addr,
                    4,
                ) == Ok::<u32, EmuError>(STACK_CANARY)) ==> (d.range.end >= d.range.start
                    && unpack_fits((d.range.end - d.range.start) as nat, d.width as nat, d.height as nat)
                    && d.width * d.height <= usize::MAX)
            }),
        ensures
            ({
                let (res, s1, b1, m1, t1) = run_spec(
                    run_start(old(self).cpu.state(), old(self).desc.render_entry),
                    old(self).bus@,
                    RETURN_SENTINEL,
                    budget,
                    0,
                    old(self).cpu.sp,
                    old(self).cpu.trace@,
                );
                let d = old(self).desc.display_buffer;
                &&& final(self).cpu.state() == s1
                &&& final(self).bus@ == b1
                &&& final(self).cpu.min_sp == m1
                &&& final(self).cpu.trace@ == t1
                &&& final(self).desc == old(self).desc
                &&& final(self).stack_bottom == old(self).stack_bottom
                &&& final(self).canary_addr == old(self).canary_addr
                &&& match res {
                    Err(e) => r == Err::<Frame, EmuError>(e),
                    Ok(_) => if b1.acl_violations.len() > 0 {
                        r matches Err(EmuError::Descriptor(m)) && m@ == "ACL violations: "@ + records_text(b1.acl_violations)
                            + "\n"@ + dump_text(final(self).cpu)
                    } else if m1 < old(self).stack_bottom {
                        r matches Err(EmuError::Descriptor(m)) && m@ == "stack pointer bottomed out at "@ + hex_word(m1)
                            + " (region bottom "@ + hex_word(old(self).stack_bottom) + ")\n"@ + dump_text(final(self).cpu)
                    } else {
                        match read_spec(b1, old(self).canary_addr, 4) {
                            Err(e) => r == Err::<Frame, EmuError>(e),
                            Ok(v) => if v != STACK_CANARY {
                                r matches Err(EmuError::Descriptor(m)) && m@ == "stack canary corrupted ("@ + hex_word(v)
                                    + ") \u{2014} stack usage reached the region bottom\n"@ + dump_text(final(self).cpu)
                            } else {
                                match read_bytes(b1, d.range.start, (d.range.end - d.range.start) as nat) {
                                    Err(e) => r == Err::<Frame, EmuError>(e),
                                    Ok(buf) => r matches Ok(f) && f.width == d.width && f.height == d.height
                                        && f.pixels@ == unpack_spec(buf, d.width as nat, d.height as nat),
                                }
                            },
                        }
                    },
                }
            }),
    {
        self.cpu.pc = self.desc.render_entry & !1u32;
        self.cpu.lr = RETURN_SENTINEL | 1;
        self.cpu.min_sp = self.cpu.sp;
        match self.cpu.run_until(&mut self.bus, RETURN_SENTINEL, budget) {
            Ok(_) => {},
            Err(e) => {
                return Err(e);
            },
        }
        if self.bus.acl_violations.len() > 0 {
            let mut head: Vec<char> = Vec::new();
            push_text(&mut head, "ACL violations: ");
            push_records(&mut head, &self.bus.acl_violations);
            push_text(&mut head, "\n");
            return Err(fault(&self.cpu, &head));
        }
        if self.cpu.min_sp < self.stack_bottom {
            let mut head: Vec<char> = Vec::new();
            push_text(&mut head, "stack pointer bottomed out at ");
            push_hex(&mut head, self.cpu.min_sp);
            push_text(&mut head, " (region bottom ");
            push_hex(&mut head, self.stack_bottom);
            push_text(&mut head, ")\n");
            return Err(fault(&self.cpu, &head));
        }
        let canary = match self.bus.read_u32(self.canary_addr) {
            Ok(v) => v,
            Err(e) => {
                return Err(e);
            },
        };
        if canary != STACK_CANARY {
            let mut head: Vec<char> = Vec::new();
            push_text(&mut head, "stack canary corrupted (");
            push_hex(&mut head, canary);
            push_text(&mut head, ") \u{2014} stack usage reached the region bottom\n");
            return Err(fault(&self.cpu, &head));
        }
        let buf = match read_display(&self.bus, self.desc.display_buffer.range.start, self.desc.display_buffer.range.end) {
            Ok(b) => b,
            Err(e) => {
                return Err(e);
            },
        };
        proof {
            lemma_read_bytes_len(self.bus@, self.desc.display_buffer.range.start, (self.desc.display_buffer.range.end - self.desc.display_buffer.range.start) as nat);
        }
        Ok(unpack_block1(buf.as_slice(), self.desc.display_buffer.width, self.desc.display_buffer.height))
    }

    /// Whether two frames differ in size or in a pixel.
    pub fn frames_differ(a: &Frame, b: &Frame) -> (r: bool)
        ensures
            r == (a.width != b.width || a.height != b.height || a.pixels@ != b.pixels@),
    {
        if a.width != b.width || a.height != b.height {
            return true;
        }
        if a.pixels.len() != b.pixels.len() {
            return true;
        }
        let mut i: usize = 0;
        while i < a.pixels.len()
            invariant
                0 <= i <= a.pixels@.len(),
                a.pixels@.len() == b.pixels@.len(),
                forall|k: int| 0 <= k < i ==> a.pixels@[k] == b.pixels@[k],
            decreases a.pixels@.len() - i,
        {
            if a.pixels[i] != b.pixels[i] {
                return true;
            }
            i = i + 1;
        }
        assert(a.pixels@ =~= b.pixels@);
        false
    }
}

/// The bytes `start..end` of the bus.
fn read_display(bus: &Bus, start: u32, end: u32) -> (r: Result<Vec<u8>, EmuError>)
    requires
        end >= start,
    ensures
        match read_bytes(bus@, start, (end - start) as nat) {
            Ok(s) => r matches Ok(v) && v@ == s,
            Err(e) => r == Err::<Vec<u8>, EmuError>(e),
        },
{
    let len = end - start;
    let mut buf: Vec<u8> = Vec::new();
    let mut i: u32 = 0;
    while i < len
        invariant
            0 <= i <= len,
            len == end - start,
            read_bytes(bus@, start, i as nat) == Ok::<Seq<u8>, EmuError>(buf@),
        decreases len - i,
    {
        match bus.read_u8(start + i) {
            Ok(v) => {
                buf.push(v);
            },
            Err(e) => {
                proof {
                    lemma_read_bytes_err(bus@, start, (i + 1) as nat, len as nat);
                }
                return Err(e);
            },
        }
        i = i + 1;
    }
    Ok(buf)
}

/// A `Descriptor` error: `head`, then a dump of the core.
fn fault(cpu: &Cpu, head: &Vec<char>) -> (e: EmuError)
    ensures
        e matches EmuError::Descriptor(m) && m@ == head@ + dump_text(*cpu),
{
    let mut m = string_from_chars(head.as_slice());
    let dump = cpu.debug_dump();
    m.append(dump.as_str());
    EmuError::Descriptor(m)
}

/// Unpack a display buffer (horizontal 1bpp, MSB the leftmost pixel,
/// `width / 8` bytes per row) into a frame.
pub fn unpack_block1(buf: &[u8], width: usize, height: usize) -> (f: Frame)
    requires
        unpack_fits(buf@.len(), width as nat, height as nat),
        width * height <= usize::MAX,
    ensures
        f.width == width,
        f.height == height,
        f.pixels@ == unpack_spec(buf@, width as nat, height as nat),
{
    let stride = width / 8;
    let n = width * height;
    let blen = buf.len();
    let ghost target = unpack_spec(buf@, width as nat, height as nat);
    let mut pixels: Vec<u8> = Vec::new();
    let mut y: usize = 0;
    while y < height
        invariant
            0 <= y <= height,
            n == width * height,
            blen == buf@.len(),
            stride == width / 8,
            unpack_fits(buf@.len(), width as nat, height as nat),
            target == unpack_spec(buf@, width as nat, height as nat),
            pixels@ == target.subrange(0, (y * width) as int),
            y * width <= n,
        decreases height - y,
    {
        let mut x: usize = 0;
        assert((y + 1) * width <= n) by (nonlinear_arith)
            requires
                y < height,
                n == width * height,
        ;
        assert(y * width + 0 == y * width);
        while x < width
            invariant
                0 <= x <= width,
                0 <= y < height,
                n == width * height,
                blen == buf@.len(),
                stride == width / 8,
                unpack_fits(buf@.len(), width as nat, height as nat),
                target == unpack_spec(buf@, width as nat, height as nat),
                pixels@ == target.subrange(0, (y * width + x) as int),
                (y + 1) * width <= n,
            decreases width - x,
        {
            proof {
                assert(y * stride <= (height - 1) * (width / 8)) by (nonlinear_arith)
                    requires
                        y < height,
                        stride == width / 8,
                ;
                assert(y * stride + x / 8 < buf@.len()) by (nonlinear_arith)
                    requires
                        (height - 1) * (width / 8) + (width - 1) / 8 < buf@.len(),
                        y < height,
                        x < width,
                        stride == width / 8,
                ;
                assert(y * width + x < n) by (nonlinear_arith)
                    requires
                        (y + 1) * width <= n,
                        x < width,
                ;
            }
            let row = y * stride;
            let col = x / 8;
            let byte = buf[row + col];
            let v = (byte >> ((7 - x % 8) as u8)) & 1;
            proof {
                let i = y * width + x;
                vstd::arithmetic::div_mod::lemma_fundamental_div_mod_converse(i as int, width as int, y as int, x as int);
                assert(target[i as int] == v);
            }
            pixels.push(v);
            assert(pixels@ =~= target.subrange(0, (y * width + x + 1) as int));
            x = x + 1;
        }
        proof {
            assert((y + 1) * width == y * width + width) by (nonlinear_arith);
            if y + 1 < height {
                assert((y + 2) * width <= n) by (nonlinear_arith)
                    requires
                        y + 2 <= height,
                        n == width * height,
                ;
            }
        }
        y = y + 1;
    }
    assert(y * width == n) by (nonlinear_arith)
        requires
            y == height,
            n == width * height,
    ;
    assert(pixels@ =~= target);
    Frame { width, height, pixels }
}

} // verus!
