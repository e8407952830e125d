//! The emitter: writes a resolved program out as an equivalent C program
//! over a fixed-size tape, one statement per operator.
use vstd::prelude::*;
use crate::program::{Operator, ParseError, str_to_program, parsed, balanced, resolves, resolves_at, depth, instructions};
use crate::text::{decimal, tabs, push_char, push_text, push_decimal};

verus! {

/// The number of cells of the tape that the emitted program declares.
pub const TAPE_SIZE: usize = 1000;

/// Why a program cannot be written out as nested C loops.
#[derive(PartialEq, Eq, Copy, Clone, Debug, Structural)]
pub enum EmitError {
    /// The loop-close at this index closes no open loop.
    UnmatchedClose(usize),
    /// This many loops are still open at the end of the program.
    UnclosedLoops(usize),
}

/// Loop-opens minus loop-closes among the first `k` operators of `p`.
pub open spec fn nesting(p: Seq<Operator>, k: int) -> int
    decreases k,
{
    if k <= 0 {
        0
    } else {
        nesting(p, k - 1) + match p[k - 1] {
            Operator::OpenLoop(_) => 1int,
            Operator::CloseLoop(_) => -1int,
            _ => 0int,
        }
    }
}

/// The loop-opens and loop-closes of `p` nest: no prefix closes more than
/// it opens, and the whole closes all it opens.
pub open spec fn well_nested(p: Seq<Operator>) -> bool {
    &&& forall|k: int| 0 <= k <= p.len() ==> nesting(p, k) >= 0
    &&& nesting(p, p.len() as int) == 0
}

/// `line`, indented by `depth` tabs.
pub open spec fn indented(line: Seq<char>, depth: int) -> Seq<char> {
    tabs(depth as nat) + line
}

/// The C text of one operator at loop depth `d`, inside `main`.
pub open spec fn op_line(op: Operator, d: int) -> Seq<char> {
    match op {
        Operator::IncrDataPtr => indented("ptr++;\n"@, d + 1),
        Operator::DecrDataPtr => indented("ptr--;\n"@, d + 1),
        Operator::IncrData => indented("(*ptr)++;\n"@, d + 1),
        Operator::DecrData => indented("(*ptr)--;\n"@, d + 1),
        Operator::Halt => indented("return 0;\n"@, d + 1),
        Operator::InputData => indented("*ptr = getchar();\n"@, d + 1),
        Operator::OutputData => indented("putchar(*ptr);\n"@, d + 1),
        Operator::OpenLoop(_) => indented("while (*ptr) {\n"@, d + 1),
        Operator::CloseLoop(_) => indented("}\n"@, d),
    }
}

/// The C text of the first `k` operators of `p`.
pub open spec fn body_lines(p: Seq<Operator>, k: int) -> Seq<char>
    decreases k,
{
    if k <= 0 {
        Seq::empty()
    } else {
        body_lines(p, k - 1) + op_line(p[k - 1], nesting(p, k - 1))
    }
}

/// The start of the emitted program: the tape of `tape_size` zero cells and
/// the pointer to its first cell.
pub open spec fn prologue(tape_size: nat) -> Seq<char> {
    "#include<stdio.h>\nint main() {\n"@ + indented(
        "char tape [ "@ + decimal(tape_size) + " ] = {0};\n"@,
        1,
    ) + indented("char *ptr;\n"@, 1) + indented("ptr = &tape[0];\n"@, 1)
}

/// The end of the emitted program.
pub open spec fn epilogue() -> Seq<char> {
    indented("return 0;\n"@, 1) + "}"@
}

/// The C program emitted for `p` with a tape of `tape_size` cells.
pub open spec fn c_program(p: Seq<Operator>, tape_size: nat) -> Seq<char> {
    prologue(tape_size) + body_lines(p, p.len() as int) + epilogue()
}

/// What emitting `p` gives.
pub open spec fn emitted(p: Seq<Operator>, tape_size: nat, r: Result<String, EmitError>) -> bool {
    match r {
        Ok(s) => well_nested(p) && s@ == c_program(p, tape_size),
        Err(EmitError::UnmatchedClose(i)) => {
            &&& 0 <= i < p.len()
            &&& nesting(p, i + 1) < 0
            &&& forall|k: int| 0 <= k <= i ==> nesting(p, k) >= 0
        },
        Err(EmitError::UnclosedLoops(n)) => {
            &&& forall|k: int| 0 <= k <= p.len() ==> nesting(p, k) >= 0
            &&& nesting(p, p.len() as int) > 0
            &&& n == nesting(p, p.len() as int)
        },
    }
}

/// Appends `p` to `s`, indented by `i` tabs.
fn push_code_indent(s: &mut String, p: &str, i: usize)
    ensures
        final(s)@ == old(s)@ + indented(p@, i as int),
{
    let ghost start = s@;
    let mut x: usize = 0;
    while x < i
        invariant
            x <= i,
            s@ == start + tabs(x as nat),
        decreases i - x,
    {
        push_char(s, '\t');
        assert(start + tabs((x + 1) as nat) =~= (start + tabs(x as nat)).push('\t'));
        x = x + 1;
    }
    push_text(s, p);
    assert(start + tabs(i as nat) + p@ =~= start + (tabs(i as nat) + p@));
}

/// Writes `program` out as a C program whose tape has `tape_size` cells.
/// Loops become native `while` blocks, indented by their depth; the jump
/// targets are not read.
pub fn emit_c(program: &Vec<Operator>, tape_size: usize) -> (r: Result<String, EmitError>)
    ensures
        emitted(program@, tape_size as nat, r),
{
    let mut c_code = String::new();
    push_code_indent(&mut c_code, "#include<stdio.h>\nint main() {\n", 0);
    let mut declaration = String::new();
    push_text(&mut declaration, "char tape [ ");
    push_decimal(&mut declaration, tape_size);
    push_text(&mut declaration, " ] = {0};\n");
    push_code_indent(&mut c_code, declaration.as_str(), 1);
    push_code_indent(&mut c_code, "char *ptr;\n", 1);
    push_code_indent(&mut c_code, "ptr = &tape[0];\n", 1);
    proof {
        assert(tabs(0) =~= Seq::<char>::empty());
        assert(c_code@ =~= prologue(tape_size as nat) + body_lines(program@, 0));
    }
    let n = program.len();
    let mut counter: usize = 0;
    let mut loop_depth: usize = 0;
    while counter < n
        invariant
            n == program@.len(),
            counter <= n,
            forall|k: int| 0 <= k <= counter ==> nesting(program@, k) >= 0,
            loop_depth <= counter,
            loop_depth == nesting(program@, counter as int),
            c_code@ == prologue(tape_size as nat) + body_lines(program@, counter as int),
        decreases n - counter,
    {
        let indent_depth = loop_depth + 1;
        match program[counter] {
            Operator::IncrDataPtr => push_code_indent(&mut c_code, "ptr++;\n", indent_depth),
            Operator::DecrDataPtr => push_code_indent(&mut c_code, "ptr--;\n", indent_depth),
            Operator::IncrData => push_code_indent(&mut c_code, "(*ptr)++;\n", indent_depth),
            Operator::DecrData => push_code_indent(&mut c_code, "(*ptr)--;\n", indent_depth),
            Operator::Halt => push_code_indent(&mut c_code, "return 0;\n", indent_depth),
            Operator::InputData => push_code_indent(&mut c_code, "*ptr = getchar();\n", indent_depth),
            Operator::OutputData => push_code_indent(&mut c_code, "putchar(*ptr);\n", indent_depth),
            Operator::OpenLoop(_) => {
                push_code_indent(&mut c_code, "while (*ptr) {\n", indent_depth);
                loop_depth = loop_depth + 1;
            },
            Operator::CloseLoop(_) => {
                if loop_depth == 0 {
                    return Err(EmitError::UnmatchedClose(counter));
                }
                loop_depth = loop_depth - 1;
                push_code_indent(&mut c_code, "}\n", loop_depth + 1);
            },
        }
        assert(c_code@ =~= prologue(tape_size as nat) + body_lines(program@, counter + 1));
        counter = counter + 1;
    }
    if loop_depth != 0 {
        return Err(EmitError::UnclosedLoops(loop_depth));
    }
    push_code_indent(&mut c_code, "return 0;\n", 1);
    push_code_indent(&mut c_code, "}", 0);
    assert(c_code@ =~= c_program(program@, tape_size as nat));
    Ok(c_code)
}

/// Loop depth in a program resolved from instruction characters `cs` is
/// bracket depth in `cs`.
proof fn lemma_nesting_is_depth(cs: Seq<char>, p: Seq<Operator>, k: int)
    requires
        resolves(cs, p),
        0 <= k <= p.len(),
    ensures
        nesting(p, k) == depth(cs, k),
    decreases k,
{
    if k > 0 {
        lemma_nesting_is_depth(cs, p, k - 1);
        assert(resolves_at(cs, p[k - 1], k - 1));
    }
}

/// A program resolved from balanced source nests: its loop depth never
/// drops below zero and comes back to zero at the end, so the emitter closes
/// every block it opens and no other.
pub proof fn lemma_resolved_nests(cs: Seq<char>, p: Seq<Operator>)
    requires
        balanced(cs),
        resolves(cs, p),
    ensures
        well_nested(p),
{
    assert forall|k: int| 0 <= k <= p.len() implies nesting(p, k) >= 0 by {
        lemma_nesting_is_depth(cs, p, k);
    }
    lemma_nesting_is_depth(cs, p, p.len() as int);
}

/// Resolves the source text `raw` and writes it out as a C program whose
/// tape has `tape_size` cells.
pub fn compile_with_tape_size(raw: String, tape_size: usize) -> (r: Result<String, ParseError>)
    ensures
        match r {
            Ok(s) => {
                &&& balanced(instructions(raw@))
                &&& exists|p: Seq<Operator>|
                    resolves(instructions(raw@), p) && s@ == c_program(p, tape_size as nat)
            },
            Err(e) => parsed(raw@, Err(e)),
        },
{
    let ghost src = raw@;
    let program = match str_to_program(raw) {
        Ok(p) => p,
        Err(e) => {
            return Err(e);
        },
    };
    proof {
        lemma_resolved_nests(instructions(src), program@);
    }
    match emit_c(&program, tape_size) {
        Ok(s) => Ok(s),
        Err(_) => {
            proof {
                assert(false);
            }
            Ok(String::new())
        },
    }
}

/// Resolves the source text `raw` and writes it out as a C program with a
/// tape of `TAPE_SIZE` cells.
pub fn compile_to_c(raw: String) -> (r: Result<String, ParseError>)
    ensures
        match r {
            Ok(s) => {
                &&& balanced(instructions(raw@))
                &&& exists|p: Seq<Operator>|
                    resolves(instructions(raw@), p) && s@ == c_program(p, TAPE_SIZE as nat)
            },
            Err(e) => parsed(raw@, Err(e)),
        },
{
    compile_with_tape_size(raw, TAPE_SIZE)
}

} // verus!
