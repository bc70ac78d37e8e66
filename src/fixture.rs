use vstd::prelude::*;

use crate::chunks::{chunk_views, chunks_at, extract_chunks, MemoryChunk};
use crate::directive::{PcRefSpec, PrePost, ProgramCounterRef};
use crate::text::chars_eq;

verus! {

/// A range of guest pages that is mapped before a fixture runs.
#[derive(Clone, Copy, Debug, PartialEq, Eq)]
pub struct Page {
    pub address: u32,
    pub length: u32,
    pub is_writable: bool,
}

/// Where a module places its read-only data, its read-write data and its
/// stack.
#[derive(Clone, Copy, Debug, PartialEq, Eq)]
pub struct MemoryLayout {
    pub ro_data_address: u32,
    pub ro_data_size: u32,
    pub rw_data_address: u32,
    pub rw_data_size: u32,
    pub stack_address_low: u32,
    pub stack_size: u32,
}

/// The pages of the regions of `m` that are not empty: read-only data, then
/// read-write data, then the stack.
pub open spec fn page_map_spec(m: MemoryLayout) -> Seq<Page> {
    (if m.ro_data_size > 0 {
        seq![Page { address: m.ro_data_address, length: m.ro_data_size, is_writable: false }]
    } else {
        seq![]
    }) + (if m.rw_data_size > 0 {
        seq![Page { address: m.rw_data_address, length: m.rw_data_size, is_writable: true }]
    } else {
        seq![]
    }) + (if m.stack_size > 0 {
        seq![Page { address: m.stack_address_low, length: m.stack_size, is_writable: true }]
    } else {
        seq![]
    })
}

/// The pages that are mapped before a fixture runs under the layout `m`.
pub fn initial_page_map(m: &MemoryLayout) -> (r: Vec<Page>)
    ensures
        r@ == page_map_spec(*m),
{
    let mut r: Vec<Page> = Vec::new();
    if m.ro_data_size > 0 {
        r.push(Page { address: m.ro_data_address, length: m.ro_data_size, is_writable: false });
    }
    if m.rw_data_size > 0 {
        r.push(Page { address: m.rw_data_address, length: m.rw_data_size, is_writable: true });
    }
    if m.stack_size > 0 {
        r.push(Page { address: m.stack_address_low, length: m.stack_size, is_writable: true });
    }
    assert(r@ =~= page_map_spec(*m));
    r
}

/// The non-zero chunks of the static data placed under the layout `m`.
pub open spec fn initial_memory_spec(m: MemoryLayout, ro_data: Seq<u8>, rw_data: Seq<u8>) -> Seq<
    (int, Seq<u8>),
> {
    (if m.ro_data_size > 0 {
        chunks_at(m.ro_data_address as int, ro_data, 0)
    } else {
        seq![]
    }) + (if m.rw_data_size > 0 {
        chunks_at(m.rw_data_address as int, rw_data, 0)
    } else {
        seq![]
    })
}

/// The non-zero chunks of `ro_data` and `rw_data` at their places under `m`,
/// for each region that is not empty.
pub fn initial_memory(m: &MemoryLayout, ro_data: &[u8], rw_data: &[u8]) -> (r: Vec<MemoryChunk>)
    requires
        m.ro_data_size > 0 ==> m.ro_data_address as int + ro_data@.len() <= u32::MAX as int + 1,
        m.rw_data_size > 0 ==> m.rw_data_address as int + rw_data@.len() <= u32::MAX as int + 1,
    ensures
        chunk_views(r@) == initial_memory_spec(*m, ro_data@, rw_data@),
{
    let mut r: Vec<MemoryChunk> = Vec::new();
    if m.ro_data_size > 0 {
        r = extract_chunks(m.ro_data_address, ro_data);
    }
    if m.rw_data_size > 0 {
        let mut rest = extract_chunks(m.rw_data_address, rw_data);
        let ghost before = r@;
        let ghost added = rest@;
        r.append(&mut rest);
        assert(chunk_views(r@) =~= chunk_views(before) + chunk_views(added));
    }
    assert(chunk_views(r@) =~= initial_memory_spec(*m, ro_data@, rw_data@));
    r
}

/// An exported symbol of a program and the program counter it names.
#[derive(Clone, Debug)]
pub struct Export {
    pub symbol: Vec<char>,
    pub program_counter: u32,
}

/// The program counter of the first export of `exports` at `i` or later whose
/// symbol is `name`.
pub open spec fn export_from(exports: Seq<Export>, name: Seq<char>, i: int) -> Option<u32>
    decreases exports.len() - i,
{
    if i < 0 || i >= exports.len() {
        None
    } else if exports[i].symbol@ == name {
        Some(exports[i].program_counter)
    } else {
        export_from(exports, name, i + 1)
    }
}

pub open spec fn export_spec(exports: Seq<Export>, name: Seq<char>) -> Option<u32> {
    export_from(exports, name, 0)
}

/// The program counter of the first export of `exports` named `name`.
pub fn find_export(exports: &Vec<Export>, name: &[char]) -> (r: Option<u32>)
    ensures
        r == export_spec(exports@, name@),
{
    let mut i: usize = 0;
    while i < exports.len()
        invariant
            i <= exports@.len(),
            export_spec(exports@, name@) == export_from(exports@, name@, i as int),
        decreases exports@.len() - i,
    {
        if chars_eq(exports[i].symbol.as_slice(), name) {
            return Some(exports[i].program_counter);
        }
        i = i + 1;
    }
    None
}

/// The position of the first `x` in `s` at `i` or later, or `s.len()`.
pub open spec fn index_from(s: Seq<u32>, x: u32, i: int) -> int
    decreases s.len() - i,
{
    if i < 0 || i >= s.len() {
        s.len() as int
    } else if s[i] == x {
        i
    } else {
        index_from(s, x, i + 1)
    }
}

/// Why the program counter expected at the end of a fixture could not be
/// found.
#[derive(Clone, Copy, Debug, PartialEq, Eq)]
pub enum ExpectedPcError {
    /// An `expected_exit` export and a `post: pc` directive were both given.
    ConflictingExit,
    /// No export bears the label that `post: pc` names.
    MissingLabel,
    /// The label of `post: pc` is at no instruction's start.
    LabelNotAnInstruction,
    /// The instruction offset of `post: pc` runs past the last instruction.
    OffsetOutOfBounds,
}

pub open spec fn expected_exit_name() -> Seq<char> {
    seq!['e', 'x', 'p', 'e', 'c', 't', 'e', 'd', '_', 'e', 'x', 'i', 't']
}

/// The program counter at which a fixture is expected to stop: the
/// `expected_exit` export; else what `post` names, counted in instructions
/// (whose start offsets are `offsets`) from a label; else the end of the
/// code.
pub open spec fn expected_pc_spec(
    exports: Seq<Export>,
    offsets: Seq<u32>,
    code_len: u32,
    post: Option<PcRefSpec>,
) -> Result<u32, ExpectedPcError> {
    match export_spec(exports, expected_exit_name()) {
        Some(pc) => if post is Some {
            Err(ExpectedPcError::ConflictingExit)
        } else {
            Ok(pc)
        },
        None => match post {
            Some(PcRefSpec::ByLabel { label, instruction_offset }) => match export_spec(exports, label) {
                None => Err(ExpectedPcError::MissingLabel),
                Some(at) => {
                    let index = index_from(offsets, at, 0);
                    if index >= offsets.len() {
                        Err(ExpectedPcError::LabelNotAnInstruction)
                    } else if index + instruction_offset >= offsets.len() {
                        Err(ExpectedPcError::OffsetOutOfBounds)
                    } else {
                        Ok(offsets[index + instruction_offset])
                    }
                },
            },
            Some(PcRefSpec::Preset(pc)) => Ok(pc),
            None => Ok(code_len),
        },
    }
}

/// The program counter at which a fixture is expected to stop; see
/// `expected_pc_spec`.
pub fn expected_final_pc(
    exports: &Vec<Export>,
    offsets: &Vec<u32>,
    code_len: u32,
    post: &Option<ProgramCounterRef>,
) -> (r: Result<u32, ExpectedPcError>)
    ensures
        r == expected_pc_spec(
            exports@,
            offsets@,
            code_len,
            match post {
                Some(p) => Some(p@),
                None => None,
            },
        ),
{
    let exit_name: [char; 13] = ['e', 'x', 'p', 'e', 'c', 't', 'e', 'd', '_', 'e', 'x', 'i', 't'];
    assert(exit_name@ =~= expected_exit_name());
    if let Some(pc) = find_export(exports, exit_name.as_slice()) {
        if post.is_some() {
            return Err(ExpectedPcError::ConflictingExit);
        }
        return Ok(pc);
    }
    match post {
        Some(ProgramCounterRef::ByLabel { label, instruction_offset }) => {
            let at = match find_export(exports, label.as_slice()) {
                Some(at) => at,
                None => return Err(ExpectedPcError::MissingLabel),
            };
            let mut index: usize = 0;
            while index < offsets.len() && offsets[index] != at
                invariant
                    index <= offsets@.len(),
                    index_from(offsets@, at, 0) == index_from(offsets@, at, index as int),
                decreases offsets@.len() - index,
            {
                index = index + 1;
            }
            if index >= offsets.len() {
                return Err(ExpectedPcError::LabelNotAnInstruction);
            }
            if *instruction_offset as usize >= offsets.len() - index {
                return Err(ExpectedPcError::OffsetOutOfBounds);
            }
            Ok(offsets[index + *instruction_offset as usize])
        },
        Some(ProgramCounterRef::Preset(pc)) => Ok(*pc),
        None => Ok(code_len),
    }
}

/// Why a call of `run` returned.
#[derive(Clone, Copy, Debug, PartialEq, Eq)]
pub enum Interrupt {
    Finished,
    Trap,
    Ecalli(u32),
    NotEnoughGas,
    Segfault { page_address: u32 },
    Step,
}

/// How a fixture ended.
#[derive(Clone, Copy, Debug, PartialEq, Eq)]
pub enum Status {
    Halt,
    Panic,
    OutOfGas,
    PageFault,
}

/// What to do after an interrupt while a fixture runs.
#[derive(Clone, Copy, Debug, PartialEq, Eq)]
pub enum RunAction {
    /// Call `run` again; `final_pc` is the program counter seen so far.
    Resume { final_pc: u32 },
    /// The fixture has ended.
    Stop { status: Status, final_pc: u32, page_fault_address: Option<u32> },
}

/// What follows `interrupt`, given the program counter `final_pc` seen so far
/// and the instance's current program counter `current_pc`. A step or a host
/// call resumes the run and moves the final program counter to the current
/// one; every end but a halt does the same.
pub open spec fn run_action_spec(final_pc: u32, interrupt: Interrupt, current_pc: Option<u32>) -> RunAction {
    let here = match current_pc {
        Some(pc) => pc,
        None => final_pc,
    };
    match interrupt {
        Interrupt::Finished => RunAction::Stop { status: Status::Halt, final_pc, page_fault_address: None },
        Interrupt::Trap => RunAction::Stop { status: Status::Panic, final_pc: here, page_fault_address: None },
        Interrupt::NotEnoughGas => RunAction::Stop {
            status: Status::OutOfGas,
            final_pc: here,
            page_fault_address: None,
        },
        Interrupt::Segfault { page_address } => RunAction::Stop {
            status: Status::PageFault,
            final_pc: here,
            page_fault_address: Some(page_address),
        },
        _ => RunAction::Resume { final_pc: here },
    }
}

/// Decides what follows one interrupt of a fixture's run. A host call needs
/// nothing from the host here and is resumed. The instance has a program
/// counter whenever it stopped anywhere but at a halt.
pub fn on_interrupt(final_pc: u32, interrupt: Interrupt, current_pc: Option<u32>) -> (r: RunAction)
    requires
        interrupt != Interrupt::Finished ==> current_pc is Some,
    ensures
        r == run_action_spec(final_pc, interrupt, current_pc),
{
    match interrupt {
        Interrupt::Finished => RunAction::Stop { status: Status::Halt, final_pc, page_fault_address: None },
        Interrupt::Trap => RunAction::Stop {
            status: Status::Panic,
            final_pc: current_pc.unwrap(),
            page_fault_address: None,
        },
        Interrupt::NotEnoughGas => RunAction::Stop {
            status: Status::OutOfGas,
            final_pc: current_pc.unwrap(),
            page_fault_address: None,
        },
        Interrupt::Segfault { page_address } => RunAction::Stop {
            status: Status::PageFault,
            final_pc: current_pc.unwrap(),
            page_fault_address: Some(page_address),
        },
        _ => RunAction::Resume { final_pc: current_pc.unwrap() },
    }
}

/// How the end of a run differs from what the fixture expects.
#[derive(Clone, Copy, Debug, PartialEq, Eq)]
pub enum OutcomeError {
    UnexpectedStatus { expected: Status, actual: Status },
    UnexpectedPc { expected: u32, actual: u32 },
}

/// Holds how a run ended against what the fixture expects: its status
/// first, where one is expected, then its final program counter.
pub fn check_outcome(expected_status: Option<Status>, status: Status, expected_pc: u32, final_pc: u32) -> (r:
    Result<(), OutcomeError>)
    ensures
        r == (match expected_status {
            Some(s) if s != status => Err(OutcomeError::UnexpectedStatus { expected: s, actual: status }),
            _ => if final_pc != expected_pc {
                Err(OutcomeError::UnexpectedPc { expected: expected_pc, actual: final_pc })
            } else {
                Ok(())
            },
        }),
{
    if let Some(s) = expected_status {
        let same = match (s, status) {
            (Status::Halt, Status::Halt) => true,
            (Status::Panic, Status::Panic) => true,
            (Status::OutOfGas, Status::OutOfGas) => true,
            (Status::PageFault, Status::PageFault) => true,
            _ => false,
        };
        if !same {
            return Err(OutcomeError::UnexpectedStatus { expected: s, actual: status });
        }
    }
    if final_pc != expected_pc {
        return Err(OutcomeError::UnexpectedPc { expected: expected_pc, actual: final_pc });
    }
    Ok(())
}

/// A difference between the state after a run and what `post:` asked for.
#[derive(Clone, Copy, Debug, PartialEq, Eq)]
pub enum Mismatch {
    Reg { index: usize, actual: u64, expected: u64 },
    Gas { actual: i64, expected: i64 },
}

/// The register mismatches among the first `n` registers, in order.
pub open spec fn reg_mismatches(regs: Seq<u64>, wanted: Seq<Option<u64>>, n: int) -> Seq<Mismatch>
    decreases n,
{
    if n <= 0 {
        seq![]
    } else {
        let rest = reg_mismatches(regs, wanted, n - 1);
        match wanted[n - 1] {
            Some(w) => if regs[n - 1] != w {
                rest.push(Mismatch::Reg { index: (n - 1) as usize, actual: regs[n - 1], expected: w })
            } else {
                rest
            },
            None => rest,
        }
    }
}

/// Every register that `post` names and that differs in `regs`, in register
/// order, then the gas where `post` names it and it differs.
pub open spec fn mismatches_spec(regs: Seq<u64>, gas: i64, post: Seq<Option<u64>>, post_gas: Option<i64>) -> Seq<Mismatch> {
    reg_mismatches(regs, post, 13) + match post_gas {
        Some(g) => if g != gas {
            seq![Mismatch::Gas { actual: gas, expected: g }]
        } else {
            seq![]
        },
        None => seq![],
    }
}

/// Holds the registers and gas after a run against what `post` asks for.
pub fn post_mismatches(regs: &[u64; 13], gas: i64, post: &PrePost) -> (r: Vec<Mismatch>)
    ensures
        r@ == mismatches_spec(regs@, gas, post.regs@, post.gas),
{
    let mut r: Vec<Mismatch> = Vec::new();
    let mut i: usize = 0;
    while i < 13
        invariant
            i <= 13,
            regs@.len() == 13,
            post.regs@.len() == 13,
            r@ == reg_mismatches(regs@, post.regs@, i as int),
        decreases 13 - i,
    {
        if let Some(w) = post.regs[i] {
            if regs[i] != w {
                r.push(Mismatch::Reg { index: i, actual: regs[i], expected: w });
            }
        }
        i = i + 1;
    }
    let ghost regs_part = r@;
    if let Some(g) = post.gas {
        if gas != g {
            r.push(Mismatch::Gas { actual: gas, expected: g });
        }
    }
    assert(r@ =~= mismatches_spec(regs@, gas, post.regs@, post.gas));
    r
}

/// The gas a fixture starts with where no `pre: gas` directive sets it.
pub const DEFAULT_GAS: i64 = 10000;

/// A `pre: pc` directive was given; a fixture always starts at `main`.
#[derive(Clone, Copy, Debug, PartialEq, Eq)]
pub struct PresetPcUnsupported;

/// The gas and registers a fixture starts with: what `pre` sets, else
/// `DEFAULT_GAS` and zero.
pub fn initial_state(pre: &PrePost) -> (r: Result<(i64, [u64; 13]), PresetPcUnsupported>)
    ensures
        pre.pc is Some ==> r is Err,
        pre.pc is None ==> (r matches Ok((gas, regs)) && gas == (match pre.gas {
            Some(g) => g,
            None => DEFAULT_GAS,
        }) && (forall|i: int|
            0 <= i < 13 ==> #[trigger] regs@[i] == match pre.regs@[i] {
                Some(v) => v,
                None => 0u64,
            })),
{
    if pre.pc.is_some() {
        return Err(PresetPcUnsupported);
    }
    let gas = match pre.gas {
        Some(g) => g,
        None => DEFAULT_GAS,
    };
    let mut regs: [u64; 13] = [0; 13];
    assert(forall|k: int| 0 <= k < 13 ==> #[trigger] regs@[k] == 0);
    let mut i: usize = 0;
    while i < 13
        invariant
            i <= 13,
            regs@.len() == 13,
            pre.regs@.len() == 13,
            forall|k: int|
                0 <= k < i ==> #[trigger] regs@[k] == match pre.regs@[k] {
                    Some(v) => v,
                    None => 0u64,
                },
            forall|k: int| i <= k < 13 ==> #[trigger] regs@[k] == 0,
        decreases 13 - i,
    {
        if let Some(v) = pre.regs[i] {
            regs[i] = v;
        }
        i = i + 1;
    }
    Ok((gas, regs))
}

/// A mode of the generator that is not available.
#[derive(Clone, Copy, Debug, PartialEq, Eq)]
pub struct Unsupported;

/// The mode that would hold the generated fixtures against the engine. It is
/// not available: it always answers `Unsupported`.
pub fn main_test() -> (r: Result<(), Unsupported>)
    ensures
        r == Err::<(), Unsupported>(Unsupported),
{
    Err(Unsupported)
}

} // verus!
