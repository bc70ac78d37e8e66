use vstd::prelude::*;

use crate::text::{copy_range, find, find_spec, trim, trim_spec, chars_eq};

verus! {

/// Where a program counter is to be found: at an instruction counted from an
/// exported label, or at a fixed offset.
#[derive(Clone, Debug)]
pub enum ProgramCounterRef {
    ByLabel { label: Vec<char>, instruction_offset: u32 },
    Preset(u32),
}

pub enum PcRefSpec {
    ByLabel { label: Seq<char>, instruction_offset: u32 },
    Preset(u32),
}

impl View for ProgramCounterRef {
    type V = PcRefSpec;

    open spec fn view(&self) -> PcRefSpec {
        match self {
            ProgramCounterRef::ByLabel { label, instruction_offset } => PcRefSpec::ByLabel {
                label: label@,
                instruction_offset: *instruction_offset,
            },
            ProgramCounterRef::Preset(pc) => PcRefSpec::Preset(*pc),
        }
    }
}

/// The state that `pre:` or `post:` directives set: gas, registers and the
/// program counter, each only where a directive names it.
#[derive(Clone, Debug)]
pub struct PrePost {
    pub gas: Option<i64>,
    pub regs: [Option<u64>; 13],
    pub pc: Option<ProgramCounterRef>,
}

pub struct PrePostSpec {
    pub gas: Option<i64>,
    pub regs: Seq<Option<u64>>,
    pub pc: Option<PcRefSpec>,
}

impl View for PrePost {
    type V = PrePostSpec;

    open spec fn view(&self) -> PrePostSpec {
        PrePostSpec {
            gas: self.gas,
            regs: self.regs@,
            pc: match self.pc {
                Some(p) => Some(p@),
                None => None,
            },
        }
    }
}

impl Default for PrePost {
    fn default() -> (r: PrePost)
        ensures
            r@ == (PrePostSpec { gas: None, regs: Seq::new(13, |i: int| None), pc: None }),
    {
        let r = PrePost { gas: None, regs: [None; 13], pc: None };
        assert(r@.regs =~= Seq::new(13, |i: int| None::<u64>));
        r
    }
}

/// Why a `pre:` / `post:` directive was refused.
#[derive(Clone, Copy, Debug, PartialEq, Eq)]
pub enum DirectiveError {
    /// No `=` in the directive.
    MissingEquals,
    /// The value of `gas` is no signed 64-bit decimal.
    InvalidGas,
    /// The value of `pc` does not start with `@`.
    MissingAt,
    /// The value of `pc` has no `[` after its label.
    MissingOpenBracket,
    /// The value of `pc` has no `]` after its offset.
    MissingCloseBracket,
    /// The offset of `pc` is no unsigned 32-bit decimal.
    InvalidOffset,
    /// Something other than white space follows the `]` of `pc`.
    TrailingText,
    /// The left-hand side names no register.
    InvalidRegister,
    /// The value given to a register is no immediate.
    InvalidValue,
}

/// What one directive sets.
pub enum DirectiveSpec {
    Gas(i64),
    Pc(PcRefSpec),
    Reg(int, u64),
}

pub open spec fn is_digit(c: char) -> bool {
    48 <= c as u32 <= 57
}

pub open spec fn all_digits(s: Seq<char>) -> bool {
    forall|i: int| 0 <= i < s.len() ==> is_digit(#[trigger] s[i])
}

/// The value of the decimal digits `s`.
pub open spec fn digits_value(s: Seq<char>) -> int
    decreases s.len(),
{
    if s.len() == 0 {
        0
    } else {
        digits_value(s.drop_last()) * 10 + (s.last() as u32 - 48)
    }
}

/// The `i64` that `s` spells in decimal: an optional `+` or `-`, then one or
/// more ASCII digits, with a value in range.
pub open spec fn decimal_i64(s: Seq<char>) -> Option<i64> {
    let signed = s.len() > 0 && (s[0] == '+' || s[0] == '-');
    let body = if signed {
        s.drop_first()
    } else {
        s
    };
    let v = if s.len() > 0 && s[0] == '-' {
        -digits_value(body)
    } else {
        digits_value(body)
    };
    if body.len() == 0 || !all_digits(body) || v < i64::MIN || v > i64::MAX {
        None
    } else {
        Some(v as i64)
    }
}

/// The `u32` that `s` spells in decimal: an optional `+`, then one or more
/// ASCII digits, with a value in range.
pub open spec fn decimal_u32(s: Seq<char>) -> Option<u32> {
    let body = if s.len() > 0 && s[0] == '+' {
        s.drop_first()
    } else {
        s
    };
    if body.len() == 0 || !all_digits(body) || digits_value(body) > u32::MAX {
        None
    } else {
        Some(digits_value(body) as u32)
    }
}

/// The index of the register called `t`, by its calling-convention name or
/// by `r` and its index.
pub open spec fn register_index(t: Seq<char>) -> Option<usize> {
    if t == "ra"@ || t == "r0"@ {
        Some(0)
    } else if t == "sp"@ || t == "r1"@ {
        Some(1)
    } else if t == "t0"@ || t == "r2"@ {
        Some(2)
    } else if t == "t1"@ || t == "r3"@ {
        Some(3)
    } else if t == "t2"@ || t == "r4"@ {
        Some(4)
    } else if t == "s0"@ || t == "r5"@ {
        Some(5)
    } else if t == "s1"@ || t == "r6"@ {
        Some(6)
    } else if t == "a0"@ || t == "r7"@ {
        Some(7)
    } else if t == "a1"@ || t == "r8"@ {
        Some(8)
    } else if t == "a2"@ || t == "r9"@ {
        Some(9)
    } else if t == "a3"@ || t == "r10"@ {
        Some(10)
    } else if t == "a4"@ || t == "r11"@ {
        Some(11)
    } else if t == "a5"@ || t == "r12"@ {
        Some(12)
    } else {
        None
    }
}

/// The register that `s` names once trimmed, by its index.
pub open spec fn register_named(s: Seq<char>) -> Option<usize> {
    register_index(trim_spec(s))
}

/// The 64-bit value of the immediate that `s` spells.
pub uninterp spec fn immediate_value(s: Seq<char>) -> Option<u64>;

/// Relies on `str::parse::<i64>`, which reads an optional `+` or `-` and
/// then only ASCII digits, and fails where the value is out of range.
#[verifier::external_body]
fn parse_i64(s: &[char]) -> (r: Option<i64>)
    ensures
        r == decimal_i64(s@),
{
    s.iter().collect::<String>().parse::<i64>().ok()
}

/// Relies on `str::parse::<u32>`, which reads an optional `+` and then only
/// ASCII digits, and fails where the value is out of range.
#[verifier::external_body]
fn parse_u32(s: &[char]) -> (r: Option<u32>)
    ensures
        r == decimal_u32(s@),
{
    s.iter().collect::<String>().parse::<u32>().ok()
}

/// Relies on `polkavm_common::utils::parse_reg`, which trims the text and
/// maps a register's name (`a0` or `r7`) to one of the thirteen registers,
/// and on `Reg::to_usize`, which gives the register's index.
#[verifier::external_body]
fn parse_reg(s: &[char]) -> (r: Option<usize>)
    ensures
        r == register_named(s@),
{
    polkavm_common::utils::parse_reg(&s.iter().collect::<String>()).map(|reg| reg.to_usize())
}

/// Relies on `polkavm_common::utils::parse_immediate`, which reads a decimal,
/// hexadecimal or binary immediate, and on its conversion into `u64`.
#[verifier::external_body]
fn parse_immediate(s: &[char]) -> (r: Option<u64>)
    ensures
        r == immediate_value(s@),
{
    polkavm_common::utils::parse_immediate(&s.iter().collect::<String>()).map(u64::from)
}

/// What the value of a `pc` directive names.
pub open spec fn pc_directive(rhs: Seq<char>) -> Result<DirectiveSpec, DirectiveError> {
    if rhs.len() == 0 || rhs[0] != '@' {
        Err(DirectiveError::MissingAt)
    } else {
        let r1 = trim_spec(rhs.drop_first());
        let b = find_spec(r1, '[');
        if b >= r1.len() {
            Err(DirectiveError::MissingOpenBracket)
        } else {
            let label = r1.subrange(0, b);
            let r2 = r1.subrange(b + 1, r1.len() as int);
            let c = find_spec(r2, ']');
            if c >= r2.len() {
                Err(DirectiveError::MissingCloseBracket)
            } else {
                match decimal_u32(r2.subrange(0, c)) {
                    None => Err(DirectiveError::InvalidOffset),
                    Some(offset) => if trim_spec(r2.subrange(c + 1, r2.len() as int)).len() != 0 {
                        Err(DirectiveError::TrailingText)
                    } else {
                        Ok(DirectiveSpec::Pc(PcRefSpec::ByLabel { label, instruction_offset: offset }))
                    },
                }
            }
        }
    }
}

/// What the directive `line` (the text after `pre:` or `post:`) sets.
pub open spec fn directive_of(line: Seq<char>) -> Result<DirectiveSpec, DirectiveError> {
    let t = trim_spec(line);
    let i = find_spec(t, '=');
    if i >= t.len() {
        Err(DirectiveError::MissingEquals)
    } else {
        let lhs = trim_spec(t.subrange(0, i));
        let rhs = trim_spec(t.subrange(i + 1, t.len() as int));
        if lhs == seq!['g', 'a', 's'] {
            match decimal_i64(rhs) {
                Some(v) => Ok(DirectiveSpec::Gas(v)),
                None => Err(DirectiveError::InvalidGas),
            }
        } else if lhs == seq!['p', 'c'] {
            pc_directive(rhs)
        } else {
            match register_named(lhs) {
                None => Err(DirectiveError::InvalidRegister),
                Some(r) => match immediate_value(rhs) {
                    None => Err(DirectiveError::InvalidValue),
                    Some(v) => Ok(DirectiveSpec::Reg(r as int, v)),
                },
            }
        }
    }
}

/// `p` with the one thing that `d` sets replaced.
pub open spec fn apply_directive(p: PrePostSpec, d: DirectiveSpec) -> PrePostSpec {
    match d {
        DirectiveSpec::Gas(v) => PrePostSpec { gas: Some(v), ..p },
        DirectiveSpec::Pc(pc) => PrePostSpec { pc: Some(pc), ..p },
        DirectiveSpec::Reg(r, v) => PrePostSpec { regs: p.regs.update(r, Some(v)), ..p },
    }
}

fn parse_pc(rhs: &[char]) -> (r: Result<ProgramCounterRef, DirectiveError>)
    ensures
        match pc_directive(rhs@) {
            Ok(DirectiveSpec::Pc(pc)) => r matches Ok(p) && p@ == pc,
            Ok(_) => false,
            Err(e) => r == Err::<ProgramCounterRef, DirectiveError>(e),
        },
{
    if rhs.len() == 0 || rhs[0] != '@' {
        return Err(DirectiveError::MissingAt);
    }
    let tail = copy_range(rhs, 1, rhs.len());
    assert(tail@ =~= rhs@.drop_first());
    let r1 = trim(tail.as_slice());
    let b = find(r1.as_slice(), '[');
    if b >= r1.len() {
        return Err(DirectiveError::MissingOpenBracket);
    }
    let label = copy_range(r1.as_slice(), 0, b);
    let r2 = copy_range(r1.as_slice(), b + 1, r1.len());
    let c = find(r2.as_slice(), ']');
    if c >= r2.len() {
        return Err(DirectiveError::MissingCloseBracket);
    }
    let digits = copy_range(r2.as_slice(), 0, c);
    let offset = match parse_u32(digits.as_slice()) {
        Some(offset) => offset,
        None => return Err(DirectiveError::InvalidOffset),
    };
    let rest = copy_range(r2.as_slice(), c + 1, r2.len());
    let rest = trim(rest.as_slice());
    if rest.len() != 0 {
        return Err(DirectiveError::TrailingText);
    }
    Ok(ProgramCounterRef::ByLabel { label, instruction_offset: offset })
}

/// Reads one directive, the text after `pre:` or `post:`, into `output`:
/// `gas = <i64>`, `pc = @<label>[<offset>]`, or `<register> = <immediate>`.
/// A directive that is refused leaves `output` as it was.
pub fn parse_pre_post(line: &[char], output: &mut PrePost) -> (r: Result<(), DirectiveError>)
    ensures
        directive_of(line@) matches Ok(DirectiveSpec::Reg(i, _)) ==> 0 <= i < 13,
        match directive_of(line@) {
            Ok(d) => r is Ok && final(output)@ == apply_directive(old(output)@, d),
            Err(e) => r == Err::<(), DirectiveError>(e) && final(output)@ == old(output)@,
        },
{
    let t = trim(line);
    let i = find(t.as_slice(), '=');
    if i >= t.len() {
        return Err(DirectiveError::MissingEquals);
    }
    let lhs = copy_range(t.as_slice(), 0, i);
    let lhs = trim(lhs.as_slice());
    let rhs = copy_range(t.as_slice(), i + 1, t.len());
    let rhs = trim(rhs.as_slice());
    let gas_word: [char; 3] = ['g', 'a', 's'];
    let pc_word: [char; 2] = ['p', 'c'];
    assert(gas_word@ =~= seq!['g', 'a', 's']);
    assert(pc_word@ =~= seq!['p', 'c']);
    if chars_eq(lhs.as_slice(), gas_word.as_slice()) {
        match parse_i64(rhs.as_slice()) {
            Some(v) => {
                output.gas = Some(v);
                Ok(())
            },
            None => Err(DirectiveError::InvalidGas),
        }
    } else if chars_eq(lhs.as_slice(), pc_word.as_slice()) {
        let pc = parse_pc(rhs.as_slice())?;
        output.pc = Some(pc);
        Ok(())
    } else {
        let reg = match parse_reg(lhs.as_slice()) {
            Some(reg) => reg,
            None => return Err(DirectiveError::InvalidRegister),
        };
        let value = match parse_immediate(rhs.as_slice()) {
            Some(value) => value,
            None => return Err(DirectiveError::InvalidValue),
        };
        output.regs[reg] = Some(value);
        assert(output@.regs =~= old(output)@.regs.update(reg as int, Some(value)));
        Ok(())
    }
}

} // verus!
