use vstd::prelude::*;

use crate::chunks::{chunk_views, MemoryChunk};
use crate::fixture::{Page, Status};

verus! {

/// Appends the characters of `s` to `out`.
pub fn push_text(out: &mut Vec<char>, s: &str)
    ensures
        final(out)@ == old(out)@ + s@,
{
    let ghost start = out@;
    for c in it: s.chars()
        invariant
            out@ == start + it.history(),
    {
        out.push(c);
    }
    assert(out@ =~= start + s@);
}

/// Appends the characters of `s` to `out`.
pub fn push_chars(out: &mut Vec<char>, s: &[char])
    ensures
        final(out)@ == old(out)@ + s@,
{
    let ghost start = out@;
    let mut i: usize = 0;
    while i < s.len()
        invariant
            i <= s@.len(),
            out@ == start + s@.subrange(0, i as int),
        decreases s@.len() - i,
    {
        out.push(s[i]);
        i = i + 1;
    }
    assert(s@.subrange(0, s@.len() as int) =~= s@);
}

/// The lower-case digit of value `d` in base 16 (or 10).
pub open spec fn digit_char(d: nat) -> char {
    if d < 10 {
        ((48 + d) as u8) as char
    } else {
        ((87 + d) as u8) as char
    }
}

/// `v` in lower-case hexadecimal, without leading zeros.
pub open spec fn hex_spec(v: nat) -> Seq<char>
    decreases v,
{
    if v < 16 {
        seq![digit_char(v)]
    } else {
        hex_spec(v / 16) + seq![digit_char(v % 16)]
    }
}

/// `v` in decimal, without leading zeros.
pub open spec fn dec_spec(v: nat) -> Seq<char>
    decreases v,
{
    if v < 10 {
        seq![digit_char(v)]
    } else {
        dec_spec(v / 10) + seq![digit_char(v % 10)]
    }
}

/// `v` in decimal, with a `-` in front where it is negative.
pub open spec fn int_spec(v: int) -> Seq<char> {
    if v < 0 {
        seq!['-'] + dec_spec((-v) as nat)
    } else {
        dec_spec(v as nat)
    }
}

/// A byte as two lower-case hexadecimal digits.
pub open spec fn byte_hex_spec(b: u8) -> Seq<char> {
    seq![digit_char(b as nat / 16), digit_char(b as nat % 16)]
}

/// The name of register `i` that does not follow the calling convention.
pub open spec fn reg_name_spec(i: nat) -> Seq<char> {
    seq!['r'] + dec_spec(i)
}

fn digit(d: u64) -> (c: char)
    requires
        d < 16,
    ensures
        c == digit_char(d as nat),
{
    if d < 10 {
        ((48 + d) as u8) as char
    } else {
        ((87 + d) as u8) as char
    }
}

/// Appends `v` in lower-case hexadecimal.
pub fn push_hex(out: &mut Vec<char>, v: u64)
    ensures
        final(out)@ == old(out)@ + hex_spec(v as nat),
    decreases v,
{
    if v >= 16 {
        push_hex(out, v / 16);
    }
    out.push(digit(v % 16));
    assert(out@ =~= old(out)@ + hex_spec(v as nat));
}

/// Appends `v` in decimal.
pub fn push_dec(out: &mut Vec<char>, v: u64)
    ensures
        final(out)@ == old(out)@ + dec_spec(v as nat),
    decreases v,
{
    if v >= 10 {
        push_dec(out, v / 10);
    }
    out.push(digit(v % 10));
    assert(out@ =~= old(out)@ + dec_spec(v as nat));
}

/// Appends `v` in decimal, with its sign where it is negative.
pub fn push_int(out: &mut Vec<char>, v: i64)
    ensures
        final(out)@ == old(out)@ + int_spec(v as int),
{
    if v < 0 {
        out.push('-');
        let magnitude = (-(v as i128)) as u64;
        push_dec(out, magnitude);
        assert(out@ =~= old(out)@ + int_spec(v as int));
    } else {
        push_dec(out, v as u64);
    }
}

/// Appends `b` as two lower-case hexadecimal digits.
pub fn push_byte_hex(out: &mut Vec<char>, b: u8)
    ensures
        final(out)@ == old(out)@ + byte_hex_spec(b),
{
    out.push(digit(b as u64 / 16));
    out.push(digit(b as u64 % 16));
    assert(out@ =~= old(out)@ + byte_hex_spec(b));
}

/// What the index says of one fixture.
#[derive(Clone, Debug)]
pub struct IndexEntry {
    pub name: Vec<char>,
    pub initial_page_map: Vec<Page>,
    pub initial_memory: Vec<MemoryChunk>,
    pub initial_regs: [u64; 13],
    pub disassembly: Vec<char>,
    pub expected_regs: [u64; 13],
    pub expected_memory: Vec<MemoryChunk>,
    pub expected_status: Status,
    pub expected_page_fault_address: Option<u32>,
    pub expected_pc: u32,
    pub initial_gas: i64,
    pub expected_gas: i64,
}

/// The name under which a fixture's end is written.
pub open spec fn status_spec(s: Status) -> Seq<char> {
    match s {
        Status::Halt => "halt"@,
        Status::Panic => "panic"@,
        Status::OutOfGas => "out-of-gas"@,
        Status::PageFault => "page-fault"@,
    }
}

/// The name under which a fixture's end is written.
pub fn status_name(s: Status) -> (r: &'static str)
    ensures
        r@ == status_spec(s),
{
    match s {
        Status::Halt => "halt",
        Status::Panic => "panic",
        Status::OutOfGas => "out-of-gas",
        Status::PageFault => "page-fault",
    }
}

pub open spec fn page_line(p: Page) -> Seq<char> {
    "   * "@ + (if p.is_writable {
        "RW"@
    } else {
        "RO"@
    }) + ": 0x"@ + hex_spec(p.address as nat) + "-0x"@ + hex_spec((p.address + p.length) as nat)
        + " (0x"@ + hex_spec(p.length as nat) + " bytes)\n"@
}

pub open spec fn pages_text(ps: Seq<Page>, n: int) -> Seq<char>
    decreases n,
{
    if n <= 0 {
        Seq::empty()
    } else {
        pages_text(ps, n - 1) + page_line(ps[n - 1])
    }
}

/// The bytes of `bs` before `n`, each as `0x..`, separated by `, `.
pub open spec fn bytes_text(bs: Seq<u8>, n: int) -> Seq<char>
    decreases n,
{
    if n <= 0 {
        Seq::empty()
    } else if n == 1 {
        "0x"@ + byte_hex_spec(bs[0])
    } else {
        bytes_text(bs, n - 1) + ", 0x"@ + byte_hex_spec(bs[n - 1])
    }
}

pub open spec fn chunk_line(c: (int, Seq<u8>)) -> Seq<char> {
    "   * 0x"@ + hex_spec(c.0 as nat) + "-0x"@ + hex_spec((c.0 + c.1.len()) as nat) + " (0x"@
        + hex_spec(c.1.len()) + " bytes) = ["@ + bytes_text(c.1, c.1.len() as int) + "]\n"@
}

pub open spec fn chunks_text(cs: Seq<(int, Seq<u8>)>, n: int) -> Seq<char>
    decreases n,
{
    if n <= 0 {
        Seq::empty()
    } else {
        chunks_text(cs, n - 1) + chunk_line(cs[n - 1])
    }
}

/// A line for each register before `n` that is not zero.
pub open spec fn nonzero_regs_text(regs: Seq<u64>, n: int) -> Seq<char>
    decreases n,
{
    if n <= 0 {
        Seq::empty()
    } else {
        nonzero_regs_text(regs, n - 1) + if regs[n - 1] != 0 {
            "   * "@ + reg_name_spec((n - 1) as nat) + " = 0x"@ + hex_spec(regs[n - 1] as nat) + "\n"@
        } else {
            Seq::empty()
        }
    }
}

/// A line for each register before `n` whose value changed.
pub open spec fn changed_regs_text(before: Seq<u64>, after: Seq<u64>, n: int) -> Seq<char>
    decreases n,
{
    if n <= 0 {
        Seq::empty()
    } else {
        changed_regs_text(before, after, n - 1) + if before[n - 1] != after[n - 1] {
            "   * "@ + reg_name_spec((n - 1) as nat) + " = 0x"@ + hex_spec(after[n - 1] as nat)
                + " (initially was 0x"@ + hex_spec(before[n - 1] as nat) + ")\n"@
        } else {
            Seq::empty()
        }
    }
}

pub open spec fn any_nonzero(regs: Seq<u64>) -> bool {
    exists|i: int| 0 <= i < regs.len() && regs[i] != 0
}

pub open spec fn any_changed(before: Seq<u64>, after: Seq<u64>) -> bool {
    exists|i: int| 0 <= i < 13 && before[i] != after[i]
}

pub open spec fn head_pages(e: IndexEntry) -> Seq<char> {
    let pages = e.initial_page_map@;
    if pages.len() > 0 {
        "Initial page map:\n"@ + pages_text(pages, pages.len() as int) + "\n"@
    } else {
        Seq::empty()
    }
}

pub open spec fn head_memory(e: IndexEntry) -> Seq<char> {
    let memory = chunk_views(e.initial_memory@);
    if memory.len() > 0 {
        "Initial non-zero memory chunks:\n"@ + chunks_text(memory, memory.len() as int) + "\n"@
    } else {
        Seq::empty()
    }
}

pub open spec fn head_regs(e: IndexEntry) -> Seq<char> {
    if any_nonzero(e.initial_regs@) {
        "Initial non-zero registers:\n"@ + nonzero_regs_text(e.initial_regs@, 13) + "\n"@
    } else {
        Seq::empty()
    }
}

pub open spec fn tail_regs(e: IndexEntry) -> Seq<char> {
    if any_changed(e.initial_regs@, e.expected_regs@) {
        "Registers after execution (only changed registers):\n"@ + changed_regs_text(
            e.initial_regs@,
            e.expected_regs@,
            13,
        ) + "\n"@
    } else {
        Seq::empty()
    }
}

pub open spec fn tail_memory(e: IndexEntry) -> Seq<char> {
    let memory = chunk_views(e.expected_memory@);
    if memory.len() > 0 {
        (if memory == chunk_views(e.initial_memory@) {
            "The memory contents after execution should be unchanged.\n"@
        } else {
            "Final non-zero memory chunks:\n"@ + chunks_text(memory, memory.len() as int)
        }) + "\n"@
    } else {
        Seq::empty()
    }
}

pub open spec fn tail_end(e: IndexEntry) -> Seq<char> {
    "Program should end with: "@ + status_spec(e.expected_status) + (match e.expected_page_fault_address {
        Some(a) => " (page address = 0x"@ + hex_spec(a as nat) + ")"@,
        None => Seq::empty(),
    }) + "\n\n"@ + "Final value of the program counter: "@ + dec_spec(e.expected_pc as nat) + "\n\n"@
        + "Gas consumed: "@ + int_spec(e.initial_gas as int) + " -> "@ + int_spec(e.expected_gas as int)
        + "\n\n"@ + "\n"@
}

/// The index's section on one fixture: its name, the pages, memory and
/// registers it starts with, its code, the registers and memory after the
/// run, and how the run ends.
pub open spec fn entry_spec(e: IndexEntry) -> Seq<char> {
    "## "@ + e.name@ + "\n\n"@ + head_pages(e) + head_memory(e) + head_regs(e) + "```\n"@ + e.disassembly@
        + "```\n\n"@ + tail_regs(e) + tail_memory(e) + tail_end(e)
}

/// Whether the entry's values can be written: the ranges it names end within
/// the address space, and a page-fault address is given with a page fault
/// only.
pub open spec fn entry_ok(e: IndexEntry) -> bool {
    &&& forall|i: int| 0 <= i < e.initial_page_map@.len()
        ==> #[trigger] e.initial_page_map@[i].address + e.initial_page_map@[i].length <= u32::MAX
    &&& forall|i: int| 0 <= i < e.initial_memory@.len()
        ==> #[trigger] e.initial_memory@[i].address + e.initial_memory@[i].contents@.len() <= u32::MAX
    &&& forall|i: int| 0 <= i < e.expected_memory@.len()
        ==> #[trigger] e.expected_memory@[i].address + e.expected_memory@[i].contents@.len() <= u32::MAX
    &&& (e.expected_status == Status::PageFault) == (e.expected_page_fault_address is Some)
}

fn push_page_line(out: &mut Vec<char>, p: &Page)
    requires
        p.address + p.length <= u32::MAX,
    ensures
        final(out)@ == old(out)@ + page_line(*p),
{
    push_text(out, "   * ");
    if p.is_writable {
        push_text(out, "RW");
    } else {
        push_text(out, "RO");
    }
    push_text(out, ": 0x");
    push_hex(out, p.address as u64);
    push_text(out, "-0x");
    push_hex(out, (p.address + p.length) as u64);
    push_text(out, " (0x");
    push_hex(out, p.length as u64);
    push_text(out, " bytes)\n");
    assert(out@ =~= old(out)@ + page_line(*p));
}

fn push_pages(out: &mut Vec<char>, ps: &Vec<Page>)
    requires
        forall|i: int| 0 <= i < ps@.len() ==> #[trigger] ps@[i].address + ps@[i].length <= u32::MAX,
    ensures
        final(out)@ == old(out)@ + pages_text(ps@, ps@.len() as int),
{
    let ghost start = out@;
    let mut i: usize = 0;
    while i < ps.len()
        invariant
            i <= ps@.len(),
            forall|k: int| 0 <= k < ps@.len() ==> #[trigger] ps@[k].address + ps@[k].length <= u32::MAX,
            out@ == start + pages_text(ps@, i as int),
        decreases ps@.len() - i,
    {
        push_page_line(out, &ps[i]);
        assert(out@ =~= start + pages_text(ps@, i + 1));
        i = i + 1;
    }
}

fn push_bytes(out: &mut Vec<char>, bs: &Vec<u8>)
    ensures
        final(out)@ == old(out)@ + bytes_text(bs@, bs@.len() as int),
{
    let ghost start = out@;
    let mut i: usize = 0;
    while i < bs.len()
        invariant
            i <= bs@.len(),
            out@ == start + bytes_text(bs@, i as int),
        decreases bs@.len() - i,
    {
        if i == 0 {
            push_text(out, "0x");
        } else {
            push_text(out, ", 0x");
        }
        push_byte_hex(out, bs[i]);
        assert(out@ =~= start + bytes_text(bs@, i + 1));
        i = i + 1;
    }
}

fn push_chunk_line(out: &mut Vec<char>, c: &MemoryChunk)
    requires
        c.address + c.contents@.len() <= u32::MAX,
    ensures
        final(out)@ == old(out)@ + chunk_line(c@),
{
    push_text(out, "   * 0x");
    push_hex(out, c.address as u64);
    push_text(out, "-0x");
    push_hex(out, (c.address + c.contents.len() as u32) as u64);
    push_text(out, " (0x");
    push_hex(out, c.contents.len() as u64);
    push_text(out, " bytes) = [");
    push_bytes(out, &c.contents);
    push_text(out, "]\n");
    assert(out@ =~= old(out)@ + chunk_line(c@));
}

fn push_chunks(out: &mut Vec<char>, cs: &Vec<MemoryChunk>)
    requires
        forall|i: int|
            0 <= i < cs@.len() ==> #[trigger] cs@[i].address + cs@[i].contents@.len() <= u32::MAX,
    ensures
        final(out)@ == old(out)@ + chunks_text(chunk_views(cs@), cs@.len() as int),
{
    let ghost start = out@;
    let mut i: usize = 0;
    while i < cs.len()
        invariant
            i <= cs@.len(),
            forall|k: int|
                0 <= k < cs@.len() ==> #[trigger] cs@[k].address + cs@[k].contents@.len() <= u32::MAX,
            out@ == start + chunks_text(chunk_views(cs@), i as int),
        decreases cs@.len() - i,
    {
        push_chunk_line(out, &cs[i]);
        assert(chunk_views(cs@)[i as int] == cs@[i as int]@);
        assert(out@ =~= start + chunks_text(chunk_views(cs@), i + 1));
        i = i + 1;
    }
}

fn push_reg_name(out: &mut Vec<char>, i: usize)
    ensures
        final(out)@ == old(out)@ + reg_name_spec(i as nat),
{
    out.push('r');
    push_dec(out, i as u64);
    assert(out@ =~= old(out)@ + reg_name_spec(i as nat));
}

fn push_nonzero_regs(out: &mut Vec<char>, regs: &[u64; 13])
    ensures
        final(out)@ == old(out)@ + nonzero_regs_text(regs@, 13),
{
    let ghost start = out@;
    let mut i: usize = 0;
    while i < 13
        invariant
            i <= 13,
            regs@.len() == 13,
            out@ == start + nonzero_regs_text(regs@, i as int),
        decreases 13 - i,
    {
        if regs[i] != 0 {
            push_text(out, "   * ");
            push_reg_name(out, i);
            push_text(out, " = 0x");
            push_hex(out, regs[i]);
            push_text(out, "\n");
        }
        assert(out@ =~= start + nonzero_regs_text(regs@, i + 1));
        i = i + 1;
    }
}

fn push_changed_regs(out: &mut Vec<char>, before: &[u64; 13], after: &[u64; 13])
    ensures
        final(out)@ == old(out)@ + changed_regs_text(before@, after@, 13),
{
    let ghost start = out@;
    let mut i: usize = 0;
    while i < 13
        invariant
            i <= 13,
            before@.len() == 13,
            after@.len() == 13,
            out@ == start + changed_regs_text(before@, after@, i as int),
        decreases 13 - i,
    {
        if before[i] != after[i] {
            push_text(out, "   * ");
            push_reg_name(out, i);
            push_text(out, " = 0x");
            push_hex(out, after[i]);
            push_text(out, " (initially was 0x");
            push_hex(out, before[i]);
            push_text(out, ")\n");
        }
        assert(out@ =~= start + changed_regs_text(before@, after@, i + 1));
        i = i + 1;
    }
}

fn has_nonzero(regs: &[u64; 13]) -> (r: bool)
    ensures
        r == any_nonzero(regs@),
{
    let mut i: usize = 0;
    while i < 13
        invariant
            i <= 13,
            regs@.len() == 13,
            forall|k: int| 0 <= k < i ==> regs@[k] == 0,
        decreases 13 - i,
    {
        if regs[i] != 0 {
            return true;
        }
        i = i + 1;
    }
    false
}

fn has_changed(before: &[u64; 13], after: &[u64; 13]) -> (r: bool)
    ensures
        r == any_changed(before@, after@),
{
    let mut i: usize = 0;
    while i < 13
        invariant
            i <= 13,
            before@.len() == 13,
            after@.len() == 13,
            forall|k: int| 0 <= k < i ==> before@[k] == after@[k],
        decreases 13 - i,
    {
        if before[i] != after[i] {
            return true;
        }
        i = i + 1;
    }
    false
}

fn bytes_equal(a: &Vec<u8>, b: &Vec<u8>) -> (r: bool)
    ensures
        r == (a@ == b@),
{
    if a.len() != b.len() {
        return false;
    }
    let mut i: usize = 0;
    while i < a.len()
        invariant
            a@.len() == b@.len(),
            i <= a@.len(),
            forall|k: int| 0 <= k < i ==> a@[k] == b@[k],
        decreases a@.len() - i,
    {
        if a[i] != b[i] {
            return false;
        }
        i = i + 1;
    }
    assert(a@ =~= b@);
    true
}

/// Whether two lists of chunks are the same.
pub fn chunks_equal(a: &Vec<MemoryChunk>, b: &Vec<MemoryChunk>) -> (r: bool)
    ensures
        r == (chunk_views(a@) == chunk_views(b@)),
{
    if a.len() != b.len() {
        assert(chunk_views(a@).len() != chunk_views(b@).len());
        return false;
    }
    let mut i: usize = 0;
    while i < a.len()
        invariant
            a@.len() == b@.len(),
            i <= a@.len(),
            forall|k: int| 0 <= k < i ==> #[trigger] chunk_views(a@)[k] == chunk_views(b@)[k],
        decreases a@.len() - i,
    {
        if a[i].address != b[i].address || !bytes_equal(&a[i].contents, &b[i].contents) {
            assert(chunk_views(a@)[i as int] != chunk_views(b@)[i as int]);
            return false;
        }
        assert(chunk_views(a@)[i as int] == chunk_views(b@)[i as int]);
        i = i + 1;
    }
    assert(chunk_views(a@) =~= chunk_views(b@));
    true
}

fn render_head_pages(out: &mut Vec<char>, e: &IndexEntry)
    requires
        entry_ok(*e),
    ensures
        final(out)@ == old(out)@ + head_pages(*e),
{
    if e.initial_page_map.len() > 0 {
        push_text(out, "Initial page map:\n");
        push_pages(out, &e.initial_page_map);
        push_text(out, "\n");
        assert(out@ =~= old(out)@ + head_pages(*e));
    } else {
        assert(out@ =~= old(out)@ + head_pages(*e));
    }
}

fn render_head_memory(out: &mut Vec<char>, e: &IndexEntry)
    requires
        entry_ok(*e),
    ensures
        final(out)@ == old(out)@ + head_memory(*e),
{
    if e.initial_memory.len() > 0 {
        push_text(out, "Initial non-zero memory chunks:\n");
        push_chunks(out, &e.initial_memory);
        push_text(out, "\n");
        assert(out@ =~= old(out)@ + head_memory(*e));
    } else {
        assert(out@ =~= old(out)@ + head_memory(*e));
    }
}

fn render_head_regs(out: &mut Vec<char>, e: &IndexEntry)
    ensures
        final(out)@ == old(out)@ + head_regs(*e),
{
    if has_nonzero(&e.initial_regs) {
        push_text(out, "Initial non-zero registers:\n");
        push_nonzero_regs(out, &e.initial_regs);
        push_text(out, "\n");
        assert(out@ =~= old(out)@ + head_regs(*e));
    } else {
        assert(out@ =~= old(out)@ + head_regs(*e));
    }
}

fn render_tail_regs(out: &mut Vec<char>, e: &IndexEntry)
    ensures
        final(out)@ == old(out)@ + tail_regs(*e),
{
    if has_changed(&e.initial_regs, &e.expected_regs) {
        push_text(out, "Registers after execution (only changed registers):\n");
        push_changed_regs(out, &e.initial_regs, &e.expected_regs);
        push_text(out, "\n");
        assert(out@ =~= old(out)@ + tail_regs(*e));
    } else {
        assert(out@ =~= old(out)@ + tail_regs(*e));
    }
}

fn render_tail_memory(out: &mut Vec<char>, e: &IndexEntry)
    requires
        entry_ok(*e),
    ensures
        final(out)@ == old(out)@ + tail_memory(*e),
{
    if e.expected_memory.len() > 0 {
        if chunks_equal(&e.expected_memory, &e.initial_memory) {
            push_text(out, "The memory contents after execution should be unchanged.\n");
        } else {
            push_text(out, "Final non-zero memory chunks:\n");
            push_chunks(out, &e.expected_memory);
        }
        push_text(out, "\n");
        assert(out@ =~= old(out)@ + tail_memory(*e));
    } else {
        assert(out@ =~= old(out)@ + tail_memory(*e));
    }
}

fn render_tail_end(out: &mut Vec<char>, e: &IndexEntry)
    ensures
        final(out)@ == old(out)@ + tail_end(*e),
{
    let ghost start = out@;
    push_text(out, "Program should end with: ");
    push_text(out, status_name(e.expected_status));
    let ghost fault_start = out@;
    if let Some(address) = e.expected_page_fault_address {
        push_text(out, " (page address = 0x");
        push_hex(out, address as u64);
        push_text(out, ")");
    }
    assert(out@ =~= fault_start + match e.expected_page_fault_address {
        Some(a) => " (page address = 0x"@ + hex_spec(a as nat) + ")"@,
        None => Seq::empty(),
    });
    push_text(out, "\n\n");
    push_text(out, "Final value of the program counter: ");
    push_dec(out, e.expected_pc as u64);
    push_text(out, "\n\n");
    push_text(out, "Gas consumed: ");
    push_int(out, e.initial_gas);
    push_text(out, " -> ");
    push_int(out, e.expected_gas);
    push_text(out, "\n\n");
    push_text(out, "\n");
    assert(out@ =~= start + tail_end(*e));
}

/// Appends the index's section on one fixture.
pub fn render_entry(out: &mut Vec<char>, e: &IndexEntry)
    requires
        entry_ok(*e),
    ensures
        final(out)@ == old(out)@ + entry_spec(*e),
{
    let ghost start = out@;
    push_text(out, "## ");
    push_chars(out, e.name.as_slice());
    push_text(out, "\n\n");
    render_head_pages(out, e);
    render_head_memory(out, e);
    render_head_regs(out, e);
    push_text(out, "```\n");
    push_chars(out, e.disassembly.as_slice());
    push_text(out, "```\n\n");
    render_tail_regs(out, e);
    render_tail_memory(out, e);
    render_tail_end(out, e);
    assert(out@ =~= start + entry_spec(*e));
}

pub open spec fn index_header() -> Seq<char> {
    "# Testcases\n\n"@ + "This file contains a human-readable index of all of the testcases,\n"@
        + "along with their disassemblies and other relevant information.\n\n\n"@
}

pub open spec fn entries_text(es: Seq<IndexEntry>, n: int) -> Seq<char>
    decreases n,
{
    if n <= 0 {
        Seq::empty()
    } else {
        entries_text(es, n - 1) + entry_spec(es[n - 1])
    }
}

/// The index of all fixtures: a header, then a section on each, in order.
pub fn render_index(entries: &Vec<IndexEntry>) -> (r: Vec<char>)
    requires
        forall|i: int| 0 <= i < entries@.len() ==> entry_ok(#[trigger] entries@[i]),
    ensures
        r@ == index_header() + entries_text(entries@, entries@.len() as int),
{
    let mut out: Vec<char> = Vec::new();
    push_text(&mut out, "# Testcases\n\n");
    push_text(&mut out, "This file contains a human-readable index of all of the testcases,\n");
    push_text(&mut out, "along with their disassemblies and other relevant information.\n\n\n");
    assert(out@ =~= index_header());
    let mut i: usize = 0;
    while i < entries.len()
        invariant
            i <= entries@.len(),
            forall|k: int| 0 <= k < entries@.len() ==> entry_ok(#[trigger] entries@[k]),
            out@ == index_header() + entries_text(entries@, i as int),
        decreases entries@.len() - i,
    {
        render_entry(&mut out, &entries[i]);
        assert(out@ =~= index_header() + entries_text(entries@, i + 1));
        i = i + 1;
    }
    out
}

} // verus!
