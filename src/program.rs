//! The instruction model and the resolver from source text to a
//! jump-resolved instruction sequence.
use vstd::prelude::*;

verus! {

broadcast use vstd::string::group_string_axioms;

/// One instruction of a resolved program. A loop-open carries the index of
/// its matching loop-close, and a loop-close the index of its loop-open.
#[derive(PartialEq, Eq, Copy, Clone, Debug, Structural)]
pub enum Operator {
    IncrDataPtr,
    DecrDataPtr,
    IncrData,
    DecrData,
    OutputData,
    InputData,
    OpenLoop(usize),
    CloseLoop(usize),
    Halt,
}

/// Why a source text has no resolved program. Positions count instruction
/// characters only: every other character of the source is a comment.
#[derive(PartialEq, Eq, Clone, Debug)]
pub enum ParseError {
    /// A `]` at this position closes no pending `[`.
    UnmatchedClose(usize),
    /// These `[` are still pending at the end of the source, outermost first.
    UnmatchedOpen(Vec<usize>),
}

/// The characters that are instructions; all others are ignored.
pub open spec fn is_instruction(c: char) -> bool {
    c == '<' || c == '>' || c == '+' || c == '-' || c == '.' || c == ',' || c == '['
        || c == ']' || c == '~'
}

/// The instruction characters of `s`, in order.
pub open spec fn instructions(s: Seq<char>) -> Seq<char>
    decreases s.len(),
{
    if s.len() == 0 {
        Seq::empty()
    } else {
        let rest = instructions(s.drop_last());
        if is_instruction(s.last()) {
            rest.push(s.last())
        } else {
            rest
        }
    }
}

/// Loop-opens minus loop-closes among the first `k` characters of `cs`.
pub open spec fn depth(cs: Seq<char>, k: int) -> int
    decreases k,
{
    if k <= 0 {
        0
    } else {
        depth(cs, k - 1) + if cs[k - 1] == '[' {
            1int
        } else if cs[k - 1] == ']' {
            -1int
        } else {
            0int
        }
    }
}

/// Every prefix closes no more loops than it opens, and the whole opens as
/// many as it closes.
pub open spec fn balanced(cs: Seq<char>) -> bool {
    &&& forall|k: int| 0 <= k <= cs.len() ==> depth(cs, k) >= 0
    &&& depth(cs, cs.len() as int) == 0
}

/// The `[` at `i` and the `]` at `j` enclose a loop body: the depth comes back
/// to its level before `i` first after `j`.
pub open spec fn partners(cs: Seq<char>, i: int, j: int) -> bool {
    &&& 0 <= i < j < cs.len()
    &&& cs[i] == '[' && cs[j] == ']'
    &&& depth(cs, j + 1) == depth(cs, i)
    &&& forall|m: int| i < m <= j ==> depth(cs, m) > depth(cs, i)
}

/// The operator of an instruction character that is not a bracket.
pub open spec fn plain_op(c: char) -> Operator {
    if c == '<' {
        Operator::DecrDataPtr
    } else if c == '>' {
        Operator::IncrDataPtr
    } else if c == '+' {
        Operator::IncrData
    } else if c == '-' {
        Operator::DecrData
    } else if c == '.' {
        Operator::OutputData
    } else if c == ',' {
        Operator::InputData
    } else {
        Operator::Halt
    }
}

/// `op` is the resolved operator for position `i` of the instruction
/// characters `cs`.
pub open spec fn resolves_at(cs: Seq<char>, op: Operator, i: int) -> bool {
    match op {
        Operator::OpenLoop(j) => cs[i] == '[' && partners(cs, i, j as int),
        Operator::CloseLoop(j) => cs[i] == ']' && partners(cs, j as int, i),
        _ => cs[i] != '[' && cs[i] != ']' && op == plain_op(cs[i]),
    }
}

/// `p` is the resolved program of the instruction characters `cs`.
pub open spec fn resolves(cs: Seq<char>, p: Seq<Operator>) -> bool {
    &&& p.len() == cs.len()
    &&& forall|i: int| 0 <= i < p.len() ==> #[trigger] resolves_at(cs, p[i], i)
}

/// The `]` at `i` is the first point where more loops are closed than opened.
pub open spec fn first_unmatched_close(cs: Seq<char>, i: int) -> bool {
    &&& 0 <= i < cs.len()
    &&& depth(cs, i + 1) < 0
    &&& forall|k: int| 0 <= k <= i ==> depth(cs, k) >= 0
}

/// The `[` at `j` opens nesting level `t` and stays open through the first
/// `n` characters.
pub open spec fn open_through(cs: Seq<char>, j: int, t: int, n: int) -> bool {
    &&& 0 <= j < n
    &&& cs[j] == '['
    &&& depth(cs, j) == t
    &&& forall|m: int| j < m <= n ==> depth(cs, m) > t
}

/// `v` lists the loop-opens of `cs` left open at its end, outermost first.
pub open spec fn pending_opens(cs: Seq<char>, v: Seq<usize>) -> bool {
    &&& v.len() == depth(cs, cs.len() as int)
    &&& forall|t: int| 0 <= t < v.len() ==> open_through(cs, #[trigger] v[t] as int, t, cs.len() as int)
}

/// What resolving the source `s` gives.
pub open spec fn parsed(s: Seq<char>, r: Result<Vec<Operator>, ParseError>) -> bool {
    let cs = instructions(s);
    match r {
        Ok(p) => balanced(cs) && resolves(cs, p@),
        Err(ParseError::UnmatchedClose(i)) => first_unmatched_close(cs, i as int),
        Err(ParseError::UnmatchedOpen(v)) => {
            &&& forall|k: int| 0 <= k <= cs.len() ==> depth(cs, k) >= 0
            &&& depth(cs, cs.len() as int) > 0
            &&& pending_opens(cs, v@)
        },
    }
}

proof fn lemma_instructions_only(s: Seq<char>)
    ensures
        forall|k: int| 0 <= k < instructions(s).len() ==> is_instruction(#[trigger] instructions(s)[k]),
    decreases s.len(),
{
    if s.len() > 0 {
        let rest = instructions(s.drop_last());
        lemma_instructions_only(s.drop_last());
        assert forall|k: int| 0 <= k < instructions(s).len() implies is_instruction(
            #[trigger] instructions(s)[k],
        ) by {
            if k < rest.len() {
                assert(is_instruction(rest[k]));
            }
        }
    }
}

/// The instruction characters of `r`, in order.
fn filter_instructions(r: &String) -> (cs: Vec<char>)
    ensures
        cs@ == instructions(r@),
{
    let mut cs: Vec<char> = Vec::new();
    for c in it: r.chars()
        invariant
            it.seq() == r@,
            cs@ == instructions(r@.subrange(0, it.index() as int)),
    {
        proof {
            let k = it.index() as int;
            assert(r@.subrange(0, k + 1).drop_last() == r@.subrange(0, k));
        }
        if c == '<' || c == '>' || c == '+' || c == '-' || c == '.' || c == ',' || c == '['
            || c == ']' || c == '~' {
            cs.push(c);
        }
    }
    proof {
        assert(r@.subrange(0, r@.len() as int) == r@);
    }
    cs
}

/// A resolved operator for position `k` so far: either final, or a loop-open
/// whose position is still pending.
spec fn resolved_or_pending(cs: Seq<char>, op: Operator, k: int, pending: Seq<usize>) -> bool {
    ||| resolves_at(cs, op, k)
    ||| (cs[k] == '[' && op is OpenLoop && pending.contains(k as usize))
}

/// The operator of an instruction character that is not a bracket.
fn plain_operator(c: char) -> (op: Operator)
    ensures
        op == plain_op(c),
{
    if c == '<' {
        Operator::DecrDataPtr
    } else if c == '>' {
        Operator::IncrDataPtr
    } else if c == '+' {
        Operator::IncrData
    } else if c == '-' {
        Operator::DecrData
    } else if c == '.' {
        Operator::OutputData
    } else if c == ',' {
        Operator::InputData
    } else {
        Operator::Halt
    }
}

/// Resolves the source text `r` into a program: keeps the instruction
/// characters, maps each to its operator, and pairs every `[` with its `]`
/// in one pass over a stack of pending loop-opens.
pub fn str_to_program(r: String) -> (res: Result<Vec<Operator>, ParseError>)
    ensures
        parsed(r@, res),
{
    let cs = filter_instructions(&r);
    proof {
        lemma_instructions_only(r@);
    }
    let n = cs.len();
    let mut program: Vec<Operator> = Vec::new();
    let mut pending: Vec<usize> = Vec::new();
    let mut i: usize = 0;
    while i < n
        invariant
            cs@ == instructions(r@),
            n == cs@.len(),
            i <= n,
            forall|k: int| 0 <= k < n ==> is_instruction(#[trigger] cs@[k]),
            program@.len() == i,
            forall|k: int| 0 <= k <= i ==> depth(cs@, k) >= 0,
            pending@.len() == depth(cs@, i as int),
            forall|t: int|
                0 <= t < pending@.len() ==> open_through(
                    cs@,
                    #[trigger] pending@[t] as int,
                    t,
                    i as int,
                ),
            forall|k: int|
                0 <= k < i ==> #[trigger] resolved_or_pending(cs@, program@[k], k, pending@),
        decreases n - i,
    {
        let c = cs[i];
        let ghost d = depth(cs@, i as int);
        assert(depth(cs@, i + 1) == d + if c == '[' {
            1int
        } else if c == ']' {
            -1int
        } else {
            0int
        });
        let ghost old_program = program@;
        let ghost old_pending = pending@;
        if c == '[' {
            pending.push(i);
            program.push(Operator::OpenLoop(0));
            assert forall|k: int| 0 <= k < i + 1 implies #[trigger] resolved_or_pending(
                cs@,
                program@[k],
                k,
                pending@,
            ) by {
                if k < i {
                    assert(resolved_or_pending(cs@, old_program[k], k, old_pending));
                    if cs@[k] == '[' && program@[k] is OpenLoop && old_pending.contains(
                        k as usize,
                    ) {
                        let t = choose|t: int| 0 <= t < old_pending.len() && old_pending[t] == k as usize;
                        assert(pending@[t] == k as usize);
                    }
                } else {
                    assert(pending@[d] == i);
                }
            }
        } else if c == ']' {
            match pending.pop() {
                None => {
                    return Err(ParseError::UnmatchedClose(i));
                },
                Some(a) => {
                    assert(open_through(cs@, a as int, d - 1, i as int));
                    program.push(Operator::CloseLoop(a));
                    program.set(a, Operator::OpenLoop(i));
                    assert forall|k: int| 0 <= k < i + 1 implies #[trigger] resolved_or_pending(
                        cs@,
                        program@[k],
                        k,
                        pending@,
                    ) by {
                        if k < i && k != a {
                            assert(resolved_or_pending(cs@, old_program[k], k, old_pending));
                            if cs@[k] == '[' && program@[k] is OpenLoop && old_pending.contains(
                                k as usize,
                            ) && !resolves_at(cs@, program@[k], k) {
                                let t = choose|t: int|
                                    0 <= t < old_pending.len() && old_pending[t] == k as usize;
                                assert(open_through(cs@, old_pending[t] as int, t, i as int));
                                assert(t != d - 1);
                                assert(pending@[t] == k as usize);
                            }
                        }
                    }
                },
            }
        } else {
            program.push(plain_operator(c));
            assert forall|k: int| 0 <= k < i + 1 implies #[trigger] resolved_or_pending(
                cs@,
                program@[k],
                k,
                pending@,
            ) by {
                if k < i {
                    assert(resolved_or_pending(cs@, old_program[k], k, old_pending));
                }
            }
        }
        i += 1;
    }
    if pending.len() > 0 {
        return Err(ParseError::UnmatchedOpen(pending));
    }
    assert forall|k: int| 0 <= k < n implies #[trigger] resolves_at(cs@, program@[k], k) by {
        assert(resolved_or_pending(cs@, program@[k], k, pending@));
    }
    Ok(program)
}

/// A loop-open has one loop-close partner, and a loop-close one loop-open.
proof fn lemma_partners_unique(cs: Seq<char>, i: int, j: int, i2: int, j2: int)
    requires
        partners(cs, i, j),
        partners(cs, i2, j2),
        i == i2 || j == j2,
    ensures
        i == i2 && j == j2,
{
    if i == i2 {
        if j < j2 {
            assert(depth(cs, j + 1) > depth(cs, i2));
        } else if j2 < j {
            assert(depth(cs, j2 + 1) > depth(cs, i));
        }
    } else {
        if i < i2 {
            assert(depth(cs, i2) > depth(cs, i));
        } else {
            assert(depth(cs, i) > depth(cs, i2));
        }
    }
}

/// In a resolved program the jump targets are in range and mutually inverse:
/// a loop-open at `i` names a loop-close after it that names `i` back, and a
/// loop-close at `i` names a loop-open before it that names `i` back.
pub proof fn lemma_targets_inverse(cs: Seq<char>, p: Seq<Operator>)
    requires
        resolves(cs, p),
    ensures
        forall|i: int|
            0 <= i < p.len() ==> match #[trigger] p[i] {
                Operator::OpenLoop(j) => i < j < p.len() && p[j as int] == Operator::CloseLoop(
                    i as usize,
                ),
                Operator::CloseLoop(j) => j < i && p[j as int] == Operator::OpenLoop(i as usize),
                _ => true,
            },
{
    assert forall|i: int| 0 <= i < p.len() implies match #[trigger] p[i] {
        Operator::OpenLoop(j) => i < j < p.len() && p[j as int] == Operator::CloseLoop(i as usize),
        Operator::CloseLoop(j) => j < i && p[j as int] == Operator::OpenLoop(i as usize),
        _ => true,
    } by {
        assert(resolves_at(cs, p[i], i));
        match p[i] {
            Operator::OpenLoop(j) => {
                assert(resolves_at(cs, p[j as int], j as int));
                if let Operator::CloseLoop(i2) = p[j as int] {
                    lemma_partners_unique(cs, i, j as int, i2 as int, j as int);
                }
            },
            Operator::CloseLoop(j) => {
                assert(resolves_at(cs, p[j as int], j as int));
                if let Operator::OpenLoop(j2) = p[j as int] {
                    lemma_partners_unique(cs, j as int, i, j as int, j2 as int);
                }
            },
            _ => {},
        }
    }
}

/// The instruction characters determine their resolved program: there is
/// at most one.
pub proof fn lemma_resolution_unique(cs: Seq<char>, p: Seq<Operator>, q: Seq<Operator>)
    requires
        resolves(cs, p),
        resolves(cs, q),
    ensures
        p == q,
{
    assert forall|i: int| 0 <= i < p.len() implies p[i] == q[i] by {
        assert(resolves_at(cs, p[i], i));
        assert(resolves_at(cs, q[i], i));
        match (p[i], q[i]) {
            (Operator::OpenLoop(j), Operator::OpenLoop(j2)) => {
                lemma_partners_unique(cs, i, j as int, i, j2 as int);
            },
            (Operator::CloseLoop(j), Operator::CloseLoop(j2)) => {
                lemma_partners_unique(cs, j as int, i, j2 as int, i);
            },
            _ => {},
        }
    }
    assert(p =~= q);
}

/// Text made of instruction characters only is its own instruction text.
pub proof fn lemma_instructions_keep(s: Seq<char>)
    requires
        forall|i: int| 0 <= i < s.len() ==> is_instruction(#[trigger] s[i]),
    ensures
        instructions(s) == s,
    decreases s.len(),
{
    if s.len() > 0 {
        lemma_instructions_keep(s.drop_last());
        assert(s.drop_last().push(s.last()) =~= s);
    }
}

/// Source whose brackets do not balance has no resolved program, and the
/// error names at least one bracket that has no partner: a `]` for an
/// unmatched close, every pending `[` for unmatched opens.
pub proof fn lemma_unbalanced_is_rejected(s: Seq<char>, r: Result<Vec<Operator>, ParseError>)
    requires
        parsed(s, r),
        !balanced(instructions(s)),
    ensures
        match r {
            Ok(_) => false,
            Err(ParseError::UnmatchedClose(i)) => {
                &&& i < instructions(s).len()
                &&& instructions(s)[i as int] == ']'
                &&& forall|j: int| !partners(instructions(s), j, i as int)
            },
            Err(ParseError::UnmatchedOpen(v)) => {
                &&& v@.len() > 0
                &&& forall|t: int|
                    0 <= t < v@.len() ==> {
                        &&& v@[t] < instructions(s).len()
                        &&& instructions(s)[v@[t] as int] == '['
                        &&& forall|j: int| !partners(instructions(s), v@[t] as int, j)
                    }
            },
        },
{
    let cs = instructions(s);
    match r {
        Ok(_) => {},
        Err(ParseError::UnmatchedClose(i)) => {
            assert(depth(cs, i as int) >= 0);
            assert forall|j: int| !partners(cs, j, i as int) by {
                if partners(cs, j, i as int) {
                    assert(depth(cs, j) >= 0);
                }
            }
        },
        Err(ParseError::UnmatchedOpen(v)) => {
            assert forall|t: int, j: int| 0 <= t < v@.len() implies !#[trigger] partners(
                cs,
                v@[t] as int,
                j,
            ) by {
                assert(open_through(cs, v@[t] as int, t, cs.len() as int));
                if partners(cs, v@[t] as int, j) {
                    assert(depth(cs, j + 1) > t);
                }
            }
        },
    }
}

} // verus!
