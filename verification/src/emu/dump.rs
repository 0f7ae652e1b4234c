//! A text dump of the core: registers, flags and the recent pcs.

use crate::emu::cpu::Cpu;
use crate::emu::bus::WriteRecord;
use crate::firmware::text::{dec_text, hex_digit, hex_digit_exec, push_all, push_dec, push_text, string_from_chars};
use vstd::prelude::*;

verus! {

/// `16^k`.
pub open spec fn place(k: nat) -> nat
    decreases k,
{
    if k == 0 {
        1
    } else {
        16 * place((k - 1) as nat)
    }
}

/// `v` as `0x` and eight hex digits.
pub open spec fn hex_word(v: u32) -> Seq<char> {
    seq!['0', 'x'] + Seq::new(8, |k: int| hex_digit(((v as nat) / place((7 - k) as nat)) as int % 16))
}

/// The register number `i` (0 to 12) left-aligned in two columns.
pub open spec fn reg_name(i: int) -> Seq<char> {
    if i < 10 {
        seq![hex_digit(i), ' ']
    } else {
        seq!['1', hex_digit(i - 10)]
    }
}

/// `name = value` on a line of its own.
pub open spec fn value_line(name: Seq<char>, v: u32) -> Seq<char> {
    name + seq![' ', '=', ' '] + hex_word(v) + seq!['\n']
}

/// Lines `r0` to `r{k-1}`.
pub open spec fn reg_lines(r: Seq<u32>, k: int) -> Seq<char>
    decreases k,
{
    if k <= 0 {
        seq![]
    } else {
        reg_lines(r, k - 1) + value_line(seq!['r'] + reg_name(k - 1), r[k - 1])
    }
}

/// `0` or `1`.
pub open spec fn bit_char(b: bool) -> char {
    if b {
        '1'
    } else {
        '0'
    }
}

/// The first `k` pcs of the trace, each after a space.
pub open spec fn trace_text(t: Seq<u32>, k: int) -> Seq<char>
    decreases k,
{
    if k <= 0 {
        seq![]
    } else {
        trace_text(t, k - 1) + seq![' '] + hex_word(t[k - 1])
    }
}

/// The dump of a core: `r0`..`r12`, `sp`, `lr`, `pc`, the flags and the
/// trace.
pub open spec fn dump_text(c: Cpu) -> Seq<char> {
    reg_lines(c.r@, 13) + value_line(seq!['s', 'p', ' '], c.sp) + value_line(seq!['l', 'r', ' '], c.lr)
        + value_line(seq!['p', 'c', ' '], c.pc) + flags_line(c) + seq!['t', 'r', 'a', 'c', 'e', ':']
        + trace_text(c.trace@, c.trace@.len() as int)
}

pub(crate) fn push_hex(out: &mut Vec<char>, v: u32)
    ensures
        final(out)@ == old(out)@ + hex_word(v),
{
    let divs: [u32; 8] = [0x1000_0000, 0x100_0000, 0x10_0000, 0x1_0000, 0x1000, 0x100, 0x10, 0x1];
    proof {
        reveal_with_fuel(place, 8);
        assert(divs@ == Seq::new(8, |k: int| place((7 - k) as nat) as u32));
    }
    let mut cs: Vec<char> = Vec::new();
    cs.push('0');
    cs.push('x');
    let mut k: usize = 0;
    while k < 8
        invariant
            0 <= k <= 8,
            divs@ == Seq::new(8, |j: int| place((7 - j) as nat) as u32),
            forall|j: int| 0 <= j < 8 ==> #[trigger] place((7 - j) as nat) > 0 && place((7 - j) as nat) <= 0x1000_0000,
            cs@ == seq!['0', 'x'] + Seq::new(k as nat, |j: int| hex_digit(((v as nat) / place((7 - j) as nat)) as int % 16)),
        decreases 8 - k,
    {
        let d = (v / divs[k]) % 16;
        let c = hex_digit_exec(d);
        cs.push(c);
        assert(cs@ =~= seq!['0', 'x'] + Seq::new((k + 1) as nat, |j: int| hex_digit(((v as nat) / place((7 - j) as nat)) as int % 16)));
        k = k + 1;
    }
    push_all(out, cs.as_slice());
}

/// A store as its derived `Debug` prints it.
pub open spec fn record_text(w: WriteRecord) -> Seq<char> {
    "WriteRecord { addr: "@ + dec_text(w.addr as nat) + ", value: "@ + dec_text(w.value as nat) + ", size: "@
        + dec_text(w.size as nat) + " }"@
}

/// The first `k` stores, separated by `, `.
pub open spec fn joined_records(ws: Seq<WriteRecord>, k: int) -> Seq<char>
    decreases k,
{
    if k <= 0 {
        seq![]
    } else if k == 1 {
        record_text(ws[0])
    } else {
        joined_records(ws, k - 1) + ", "@ + record_text(ws[k - 1])
    }
}

/// A list of stores as the derived `Debug` of a `Vec` prints it.
pub open spec fn records_text(ws: Seq<WriteRecord>) -> Seq<char> {
    "["@ + joined_records(ws, ws.len() as int) + "]"@
}

fn push_record(out: &mut Vec<char>, w: WriteRecord)
    ensures
        final(out)@ == old(out)@ + record_text(w),
{
    push_text(out, "WriteRecord { addr: ");
    push_dec(out, w.addr as u128);
    push_text(out, ", value: ");
    push_dec(out, w.value as u128);
    push_text(out, ", size: ");
    push_dec(out, w.size as u128);
    push_text(out, " }");
    assert(out@ =~= old(out)@ + record_text(w));
}

pub(crate) fn push_records(out: &mut Vec<char>, ws: &Vec<WriteRecord>)
    ensures
        final(out)@ == old(out)@ + records_text(ws@),
{
    push_text(out, "[");
    let ghost start = out@;
    let mut k: usize = 0;
    while k < ws.len()
        invariant
            0 <= k <= ws@.len(),
            out@ == start + joined_records(ws@, k as int),
        decreases ws@.len() - k,
    {
        if k > 0 {
            push_text(out, ", ");
        }
        push_record(out, ws[k]);
        assert(out@ =~= start + joined_records(ws@, k + 1));
        k = k + 1;
    }
    push_text(out, "]");
    assert(out@ =~= old(out)@ + records_text(ws@));
}

fn push_value_line(out: &mut Vec<char>, name: &[char], v: u32)
    ensures
        final(out)@ == old(out)@ + value_line(name@, v),
{
    let eq: [char; 3] = [' ', '=', ' '];
    push_all(out, name);
    push_all(out, &eq);
    push_hex(out, v);
    out.push('\n');
    assert(out@ =~= old(out)@ + value_line(name@, v));
}

fn push_reg_line(out: &mut Vec<char>, i: usize, v: u32)
    requires
        i < 13,
    ensures
        final(out)@ == old(out)@ + value_line(seq!['r'] + reg_name(i as int), v),
{
    let name: [char; 3] = if i < 10 {
        ['r', hex_digit_exec(i as u32), ' ']
    } else {
        ['r', '1', hex_digit_exec((i - 10) as u32)]
    };
    assert(name@ =~= seq!['r'] + reg_name(i as int));
    push_value_line(out, &name, v);
}

/// The flags line.
pub open spec fn flags_line(c: Cpu) -> Seq<char> {
    seq![
        'n',
        '=',
        bit_char(c.n),
        ' ',
        'z',
        '=',
        bit_char(c.z),
        ' ',
        'c',
        '=',
        bit_char(c.c),
        ' ',
        'v',
        '=',
        bit_char(c.v),
        '\n',
    ]
}

impl Cpu {
    /// A text dump of the registers, the flags and the trace of recent pcs.
    pub fn debug_dump(&self) -> (s: String)
        ensures
            s@ == dump_text(*self),
    {
        let mut out: Vec<char> = Vec::new();
        let mut i: usize = 0;
        assert(out@ =~= reg_lines(self.r@, 0));
        while i < 13
            invariant
                0 <= i <= 13,
                self.r@.len() == 13,
                out@ == reg_lines(self.r@, i as int),
            decreases 13 - i,
        {
            push_reg_line(&mut out, i, self.r[i]);
            i = i + 1;
        }
        let ghost regs = out@;
        let sp: [char; 3] = ['s', 'p', ' '];
        let lr: [char; 3] = ['l', 'r', ' '];
        let pc: [char; 3] = ['p', 'c', ' '];
        push_value_line(&mut out, &sp, self.sp);
        push_value_line(&mut out, &lr, self.lr);
        push_value_line(&mut out, &pc, self.pc);
        let ghost vals = out@;
        let flags: [char; 16] = [
            'n',
            '=',
            if self.n { '1' } else { '0' },
            ' ',
            'z',
            '=',
            if self.z { '1' } else { '0' },
            ' ',
            'c',
            '=',
            if self.c { '1' } else { '0' },
            ' ',
            'v',
            '=',
            if self.v { '1' } else { '0' },
            '\n',
        ];
        assert(flags@ =~= flags_line(*self));
        push_all(&mut out, &flags);
        let tr: [char; 6] = ['t', 'r', 'a', 'c', 'e', ':'];
        push_all(&mut out, &tr);
        let ghost before_trace = out@;
        assert(before_trace =~= reg_lines(self.r@, 13) + value_line(seq!['s', 'p', ' '], self.sp) + value_line(seq!['l', 'r', ' '], self.lr)
            + value_line(seq!['p', 'c', ' '], self.pc) + flags_line(*self) + seq!['t', 'r', 'a', 'c', 'e', ':']);
        let mut k: usize = 0;
        assert(out@ =~= before_trace + trace_text(self.trace@, 0));
        while k < self.trace.len()
            invariant
                0 <= k <= self.trace@.len(),
                out@ == before_trace + trace_text(self.trace@, k as int),
            decreases self.trace@.len() - k,
        {
            out.push(' ');
            push_hex(&mut out, self.trace[k]);
            assert(out@ =~= before_trace + trace_text(self.trace@, k + 1));
            k = k + 1;
        }
        assert(out@ =~= dump_text(*self));
        string_from_chars(out.as_slice())
    }
}

} // verus!
