use vstd::prelude::*;

use crate::directive::{
    apply_directive, directive_of, parse_pre_post, DirectiveError, PrePost, PrePostSpec,
};
use crate::text::{copy_range, find, find_spec, lemma_find_from_bounds, trim, trim_spec};

verus! {

/// The source of a fixture once its `pre:` and `post:` lines are taken out:
/// the assembly text, line by line, and the state the directives set.
#[derive(Clone, Debug)]
pub struct FixtureSource {
    pub body: Vec<Vec<char>>,
    pub pre: PrePost,
    pub post: PrePost,
}

pub open spec fn starts_with(s: Seq<char>, p: Seq<char>) -> bool {
    p.len() <= s.len() && s.subrange(0, p.len() as int) == p
}

pub open spec fn pre_prefix() -> Seq<char> {
    seq!['p', 'r', 'e', ':']
}

pub open spec fn post_prefix() -> Seq<char> {
    seq!['p', 'o', 's', 't', ':']
}

pub open spec fn empty_pre_post() -> PrePostSpec {
    PrePostSpec { gas: None, regs: Seq::new(13, |i: int| None), pc: None }
}

/// The `pre` and `post` states that the directives among the first `n` lines
/// set, in order, or the error of the first directive that is refused.
pub open spec fn directives_upto(lines: Seq<Vec<char>>, n: int) -> Result<
    (PrePostSpec, PrePostSpec),
    DirectiveError,
>
    decreases n,
{
    if n <= 0 {
        Ok((empty_pre_post(), empty_pre_post()))
    } else {
        match directives_upto(lines, n - 1) {
            Err(e) => Err(e),
            Ok((pre, post)) => {
                let l = lines[n - 1]@;
                if starts_with(l, pre_prefix()) {
                    match directive_of(l.subrange(4, l.len() as int)) {
                        Ok(d) => Ok((apply_directive(pre, d), post)),
                        Err(e) => Err(e),
                    }
                } else if starts_with(l, post_prefix()) {
                    match directive_of(l.subrange(5, l.len() as int)) {
                        Ok(d) => Ok((pre, apply_directive(post, d))),
                        Err(e) => Err(e),
                    }
                } else {
                    Ok((pre, post))
                }
            },
        }
    }
}

/// A line of assembly as it stays in the body: a directive line becomes
/// empty, so that line numbers are kept.
pub open spec fn body_line(l: Seq<char>) -> Seq<char> {
    if starts_with(l, pre_prefix()) || starts_with(l, post_prefix()) {
        Seq::empty()
    } else {
        l
    }
}

proof fn lemma_error_persists(lines: Seq<Vec<char>>, n: int, m: int)
    requires
        n <= m,
        directives_upto(lines, n) is Err,
    ensures
        directives_upto(lines, m) == directives_upto(lines, n),
    decreases m - n,
{
    if n < m {
        lemma_error_persists(lines, n, m - 1);
    }
}

fn has_prefix(s: &[char], p: &[char]) -> (r: bool)
    ensures
        r == starts_with(s@, p@),
{
    if p.len() > s.len() {
        return false;
    }
    let mut i: usize = 0;
    while i < p.len()
        invariant
            p@.len() <= s@.len(),
            i <= p@.len(),
            forall|k: int| 0 <= k < i ==> s@[k] == p@[k],
        decreases p@.len() - i,
    {
        if s[i] != p[i] {
            return false;
        }
        i = i + 1;
    }
    assert(s@.subrange(0, p@.len() as int) =~= p@);
    true
}

/// Takes the `pre:` and `post:` directives out of the lines of a fixture's
/// source and reads them, in order; each such line is left empty in the
/// body. The first directive that is refused ends the work with its error.
pub fn split_source(lines: &Vec<Vec<char>>) -> (r: Result<FixtureSource, DirectiveError>)
    ensures
        match directives_upto(lines@, lines@.len() as int) {
            Ok((pre, post)) => r matches Ok(f) && f.pre@ == pre && f.post@ == post
                && f.body@.len() == lines@.len() && (forall|i: int|
                0 <= i < lines@.len() ==> #[trigger] f.body@[i]@ == body_line(lines@[i]@)),
            Err(e) => r matches Err(x) && x == e,
        },
{
    let pre_word: [char; 4] = ['p', 'r', 'e', ':'];
    let post_word: [char; 5] = ['p', 'o', 's', 't', ':'];
    assert(pre_word@ =~= pre_prefix());
    assert(post_word@ =~= post_prefix());
    let mut pre = PrePost::default();
    let mut post = PrePost::default();
    let mut body: Vec<Vec<char>> = Vec::new();
    let mut i: usize = 0;
    while i < lines.len()
        invariant
            i <= lines@.len(),
            pre_word@ == pre_prefix(),
            post_word@ == post_prefix(),
            directives_upto(lines@, i as int) == Ok::<(PrePostSpec, PrePostSpec), DirectiveError>(
                (pre@, post@),
            ),
            body@.len() == i,
            forall|k: int| 0 <= k < i ==> #[trigger] body@[k]@ == body_line(lines@[k]@),
        decreases lines@.len() - i,
    {
        let line = lines[i].as_slice();
        if has_prefix(line, pre_word.as_slice()) {
            let rest = copy_range(line, 4, line.len());
            if let Err(e) = parse_pre_post(rest.as_slice(), &mut pre) {
                proof {
                    lemma_error_persists(lines@, i + 1, lines@.len() as int);
                }
                return Err(e);
            }
            body.push(Vec::new());
        } else if has_prefix(line, post_word.as_slice()) {
            let rest = copy_range(line, 5, line.len());
            if let Err(e) = parse_pre_post(rest.as_slice(), &mut post) {
                proof {
                    lemma_error_persists(lines@, i + 1, lines@.len() as int);
                }
                return Err(e);
            }
            body.push(Vec::new());
        } else {
            body.push(copy_range(line, 0, line.len()));
        }
        assert(body@[i as int]@ =~= body_line(lines@[i as int]@));
        i = i + 1;
    }
    Ok(FixtureSource { body, pre, post })
}

/// The lines of `body` joined with a newline between each two.
pub open spec fn joined(body: Seq<Vec<char>>, n: int) -> Seq<char>
    decreases n,
{
    if n <= 0 {
        Seq::empty()
    } else if n == 1 {
        body[0]@
    } else {
        joined(body, n - 1) + seq!['\n'] + body[n - 1]@
    }
}

/// The text of the assembly that `body` holds, one line after another.
pub fn join_lines(body: &Vec<Vec<char>>) -> (r: Vec<char>)
    ensures
        r@ == joined(body@, body@.len() as int),
{
    let mut r: Vec<char> = Vec::new();
    let mut i: usize = 0;
    while i < body.len()
        invariant
            i <= body@.len(),
            r@ == joined(body@, i as int),
        decreases body@.len() - i,
    {
        if i > 0 {
            r.push('\n');
        }
        let line = &body[i];
        let mut k: usize = 0;
        let ghost start = r@;
        while k < line.len()
            invariant
                k <= line@.len(),
                r@ == start + line@.subrange(0, k as int),
            decreases line@.len() - k,
        {
            r.push(line[k]);
            k = k + 1;
        }
        assert(line@.subrange(0, line@.len() as int) =~= line@);
        assert(r@ =~= joined(body@, i + 1));
        i = i + 1;
    }
    r
}

/// The instruction set that a fixture is assembled for, unless its text
/// declares another.
#[derive(Clone, Copy, Debug, PartialEq, Eq)]
pub enum Isa {
    Latest32,
    Latest64,
}

/// The lines of `s`, split at each newline.
pub open spec fn split_nl(s: Seq<char>) -> Seq<Seq<char>>
    decreases s.len(),
    via split_nl_decreases
{
    let k = find_spec(s, '\n');
    if k >= s.len() {
        seq![s]
    } else {
        seq![s.subrange(0, k)] + split_nl(s.subrange(k + 1, s.len() as int))
    }
}

#[via_fn]
proof fn split_nl_decreases(s: Seq<char>) {
    lemma_find_from_bounds(s, '\n', 0);
}

/// Whether `l` reads as a label (`@name:` or `pub @name:`) to the assembler,
/// or starts like one.
pub open spec fn is_label_line(l: Seq<char>) -> bool {
    let t = trim_spec(l);
    starts_with(t, seq!['@']) || starts_with(t, seq!['p', 'u', 'b', ' ', '@'])
}

/// Whether `l` is a line that can give no instruction: blank, a comment, a
/// `%` directive or a label.
pub open spec fn gives_no_instruction(l: Seq<char>) -> bool {
    let t = trim_spec(l);
    t.len() == 0 || starts_with(t, seq!['/', '/']) || starts_with(t, seq!['%']) || is_label_line(l)
}

/// Whether, among the first `n` lines, some label is followed by no line
/// that can give an instruction.
pub open spec fn label_pending(lines: Seq<Seq<char>>, n: int) -> bool
    decreases n,
{
    if n <= 0 {
        false
    } else if !gives_no_instruction(lines[n - 1]) {
        false
    } else if is_label_line(lines[n - 1]) {
        true
    } else {
        label_pending(lines, n - 1)
    }
}

/// Whether the assembly `text` has a label after which no instruction
/// follows. The assembler cannot place such a label and fails on it.
pub open spec fn ends_with_label(text: Seq<char>) -> bool {
    label_pending(split_nl(text), split_nl(text).len() as int)
}

pub open spec fn line_views(ls: Seq<Vec<char>>) -> Seq<Seq<char>> {
    ls.map_values(|l: Vec<char>| l@)
}

/// The lines of `text`, split at each newline.
pub fn split_lines(text: &[char]) -> (r: Vec<Vec<char>>)
    ensures
        line_views(r@) == split_nl(text@),
{
    let mut out: Vec<Vec<char>> = Vec::new();
    let mut rest = copy_range(text, 0, text.len());
    assert(rest@ =~= text@);
    loop
        invariant
            line_views(out@) + split_nl(rest@) == split_nl(text@),
        decreases rest@.len(),
    {
        let k = find(rest.as_slice(), '\n');
        let line = copy_range(rest.as_slice(), 0, k);
        let ghost before = out@;
        if k >= rest.len() {
            assert(line@ =~= rest@);
            assert(split_nl(rest@) == seq![rest@]);
            out.push(line);
            assert(line_views(out@) =~= line_views(before) + split_nl(rest@));
            return out;
        }
        out.push(line);
        let next = copy_range(rest.as_slice(), k + 1, rest.len());
        assert(line_views(out@) + split_nl(next@) =~= line_views(before) + split_nl(rest@));
        rest = next;
    }
}

fn is_label(l: &[char]) -> (r: bool)
    ensures
        r == is_label_line(l@),
{
    let t = trim(l);
    let at: [char; 1] = ['@'];
    let pub_at: [char; 5] = ['p', 'u', 'b', ' ', '@'];
    assert(at@ =~= seq!['@']);
    assert(pub_at@ =~= seq!['p', 'u', 'b', ' ', '@']);
    has_prefix(t.as_slice(), at.as_slice()) || has_prefix(t.as_slice(), pub_at.as_slice())
}

fn no_instruction(l: &[char]) -> (r: bool)
    ensures
        r == gives_no_instruction(l@),
{
    let t = trim(l);
    let comment: [char; 2] = ['/', '/'];
    let percent: [char; 1] = ['%'];
    assert(comment@ =~= seq!['/', '/']);
    assert(percent@ =~= seq!['%']);
    t.len() == 0 || has_prefix(t.as_slice(), comment.as_slice()) || has_prefix(
        t.as_slice(),
        percent.as_slice(),
    ) || is_label(l)
}

/// Whether the assembly `text` has a label after which no instruction
/// follows.
pub fn has_dangling_label(text: &[char]) -> (r: bool)
    ensures
        r == ends_with_label(text@),
{
    let lines = split_lines(text);
    let ghost ls = split_nl(text@);
    let mut pending = false;
    let mut i: usize = 0;
    while i < lines.len()
        invariant
            i <= lines@.len(),
            line_views(lines@) == ls,
            pending == label_pending(ls, i as int),
        decreases lines@.len() - i,
    {
        assert(ls[i as int] == lines@[i as int]@);
        let line = lines[i].as_slice();
        if !no_instruction(line) {
            pending = false;
        } else if is_label(line) {
            pending = true;
        }
        i = i + 1;
    }
    pending
}

/// Why a fixture's body could not be assembled.
#[derive(Clone, Debug)]
pub enum AssembleError {
    /// A label is followed by no instruction.
    DanglingLabel,
    /// The assembler refused the text, saying why.
    Rejected(String),
}

/// The program blob that the assembly `text` gives for `isa`, where it is
/// accepted.
pub uninterp spec fn assembly_of(text: Seq<char>, isa: Isa) -> Option<Seq<u8>>;

/// Relies on `polkavm_common::assembler::assemble`, which turns assembly text
/// into a program blob or a message saying why it cannot. It indexes out of
/// bounds on a label that no instruction follows, so such text is left out.
#[verifier::external_body]
fn assemble_text(text: &[char], isa: Isa) -> (r: Result<Vec<u8>, String>)
    requires
        !ends_with_label(text@),
    ensures
        match r {
            Ok(b) => assembly_of(text@, isa) == Some(b@),
            Err(_) => assembly_of(text@, isa) is None,
        },
{
    let isa = match isa {
        Isa::Latest32 => polkavm_common::program::InstructionSetKind::Latest32,
        Isa::Latest64 => polkavm_common::program::InstructionSetKind::Latest64,
    };
    polkavm_common::assembler::assemble(Some(isa), &text.iter().collect::<String>())
}

/// Assembles the body of a fixture's source into a program blob. A body with
/// a label that no instruction follows is refused before the assembler sees
/// it.
pub fn assemble_source(source: &FixtureSource, isa: Isa) -> (r: Result<Vec<u8>, AssembleError>)
    ensures
        ({
            let text = joined(source.body@, source.body@.len() as int);
            if ends_with_label(text) {
                r matches Err(AssembleError::DanglingLabel)
            } else {
                match r {
                    Ok(b) => assembly_of(text, isa) == Some(b@),
                    Err(e) => e is Rejected && assembly_of(text, isa) is None,
                }
            }
        }),
{
    let text = join_lines(&source.body);
    if has_dangling_label(text.as_slice()) {
        return Err(AssembleError::DanglingLabel);
    }
    match assemble_text(text.as_slice(), isa) {
        Ok(b) => Ok(b),
        Err(message) => Err(AssembleError::Rejected(message)),
    }
}

/// A line of the list of compiled test programs that does not have the shape
/// `riscv_test!(riscv_unoptimized_rv64<name>, "<path>", ...)`.
#[derive(Clone, Copy, Debug, PartialEq, Eq)]
pub struct MalformedTestLine;

pub open spec fn riscv_prefix() -> Seq<char> {
    "riscv_test!(riscv_unoptimized_rv64"@
}

/// What a line of the list of compiled test programs names: nothing where
/// it does not start with the test macro; else the test's name (up to the
/// first comma) and the path in the second field, whose first and last
/// characters (its quotes) are dropped.
pub open spec fn riscv_line_spec(line: Seq<char>) -> Result<Option<(Seq<char>, Seq<char>)>, MalformedTestLine> {
    if !starts_with(line, riscv_prefix()) {
        Ok(None)
    } else {
        let rest = line.subrange(riscv_prefix().len() as int, line.len() as int);
        let c = find_spec(rest, ',');
        if c >= rest.len() {
            Err(MalformedTestLine)
        } else {
            let after = rest.subrange(c + 1, rest.len() as int);
            let field = trim_spec(after.subrange(0, find_spec(after, ',')));
            if field.len() < 2 {
                Err(MalformedTestLine)
            } else {
                Ok(Some((rest.subrange(0, c), field.subrange(1, field.len() - 1))))
            }
        }
    }
}

/// Reads a line of the list of compiled test programs; see
/// `riscv_line_spec`.
pub fn parse_riscv_test_line(line: &[char]) -> (r: Result<Option<(Vec<char>, Vec<char>)>, MalformedTestLine>)
    ensures
        match riscv_line_spec(line@) {
            Ok(Some((name, path))) => r matches Ok(Some((n, p))) && n@ == name && p@ == path,
            Ok(None) => r matches Ok(None),
            Err(_) => r is Err,
        },
{
    let prefix = "riscv_test!(riscv_unoptimized_rv64";
    let mut prefix_chars: Vec<char> = Vec::new();
    crate::index::push_text(&mut prefix_chars, prefix);
    if !has_prefix(line, prefix_chars.as_slice()) {
        return Ok(None);
    }
    let rest = copy_range(line, prefix_chars.len(), line.len());
    let c = find(rest.as_slice(), ',');
    if c >= rest.len() {
        return Err(MalformedTestLine);
    }
    let after = copy_range(rest.as_slice(), c + 1, rest.len());
    let end = find(after.as_slice(), ',');
    let field = copy_range(after.as_slice(), 0, end);
    let field = trim(field.as_slice());
    if field.len() < 2 {
        return Err(MalformedTestLine);
    }
    let name = copy_range(rest.as_slice(), 0, c);
    let path = copy_range(field.as_slice(), 1, field.len() - 1);
    Ok(Some((name, path)))
}

} // verus!
