//! What runs of some small programs do, for every start state they cover.
use vstd::prelude::*;
use crate::program::{Operator, resolves, resolves_at, instructions, lemma_instructions_keep, plain_op, partners, depth};
use crate::interpreter::{Machine, Completion, Event, step_spec, run_spec, valid_machine, stopped, initial_machine, grow_tape};

verus! {

/// A move-right step from a valid state puts the pointer on a cell: it
/// appends exactly one zero cell when the pointer leaves the end of the tape,
/// and leaves the tape as it is otherwise.
pub proof fn lemma_move_right_grows(prog: Seq<Operator>, m: Machine, input: Option<u8>)
    requires
        valid_machine(m),
        !stopped(prog, m),
        prog[m.pc] == Operator::IncrDataPtr,
    ensures
        ({
            let (m2, ev) = step_spec(prog, m, input);
            &&& ev == Ok::<Event, crate::interpreter::RuntimeError>(Event::Stepped)
            &&& m2.head == m.head + 1
            &&& valid_machine(m2)
            &&& m.head + 1 == m.tape.len() ==> m2.tape == m.tape.push(0)
            &&& m.head + 1 < m.tape.len() ==> m2.tape == m.tape
        }),
{
}

/// The source text of `n` increments followed by one output.
pub open spec fn count_then_output(n: nat) -> Seq<char> {
    Seq::new(n, |i: int| '+').push('.')
}

/// The state after `k` increments of a fresh tape.
pub open spec fn counted(k: nat) -> Machine {
    Machine { tape: seq![k as u8], head: 0, pc: k as int, halted: false }
}

proof fn lemma_counting_run(p: Seq<Operator>, n: nat, k: nat, fuel: nat)
    requires
        n < 256,
        k <= n,
        fuel >= n + 1 - k,
        p.len() == n + 1,
        forall|i: int| 0 <= i < n ==> p[i] == Operator::IncrData,
        p[n as int] == Operator::OutputData,
    ensures
        run_spec(p, counted(k), Seq::empty(), fuel) == (
            Machine { pc: n + 1int, ..counted(n) },
            seq![n as u8],
            Ok::<Completion, crate::interpreter::RuntimeError>(Completion::Finished),
        ),
    decreases n - k,
{
    if k < n {
        let m2 = step_spec(p, counted(k), None).0;
        assert(m2 == counted(k + 1)) by {
            assert(seq![k as u8].update(0, (k + 1) as u8) =~= seq![(k + 1) as u8]);
        }
        lemma_counting_run(p, n, k + 1, (fuel - 1) as nat);
    } else {
        let m2 = step_spec(p, counted(k), None).0;
        assert(run_spec(p, m2, Seq::empty(), (fuel - 1) as nat).1 == Seq::<u8>::empty());
        assert(seq![n as u8] + Seq::<u8>::empty() =~= seq![n as u8]);
    }
}

/// Running the program of `n` increments and one output, for `n` below 256,
/// writes the single byte `n` and finishes, given one step per operator.
pub proof fn lemma_count_then_output(n: nat, p: Seq<Operator>, fuel: nat)
    requires
        n < 256,
        resolves(instructions(count_then_output(n)), p),
        fuel >= n + 1,
    ensures
        ({
            let (m, out, res) = run_spec(p, initial_machine(), Seq::empty(), fuel);
            &&& out == seq![n as u8]
            &&& res == Ok::<Completion, crate::interpreter::RuntimeError>(Completion::Finished)
            &&& m.tape == seq![n as u8]
        }),
{
    let s = count_then_output(n);
    lemma_instructions_keep(s);
    assert forall|i: int| 0 <= i < n implies p[i] == Operator::IncrData by {
        assert(resolves_at(s, p[i], i));
    }
    assert(resolves_at(s, p[n as int], n as int));
    assert(counted(0) == initial_machine());
    lemma_counting_run(p, n, 0, fuel);
}

/// The source text of the loop that clears a cell.
pub open spec fn clear_loop() -> Seq<char> {
    seq!['[', '-', ']']
}

/// The resolved program of the clearing loop.
proof fn lemma_clear_loop_program(p: Seq<Operator>)
    requires
        resolves(instructions(clear_loop()), p),
    ensures
        p == seq![Operator::OpenLoop(2), Operator::DecrData, Operator::CloseLoop(0)],
{
    let cs = clear_loop();
    lemma_instructions_keep(cs);
    assert(cs[0] == '[' && cs[1] == '-' && cs[2] == ']');
    assert(depth(cs, 0) == 0);
    assert(depth(cs, 1) == 1);
    assert(depth(cs, 2) == 1);
    assert(depth(cs, 3) == 0);
    assert(resolves_at(cs, p[0], 0));
    assert(resolves_at(cs, p[1], 1));
    assert(resolves_at(cs, p[2], 2));
    assert(p =~= seq![Operator::OpenLoop(2), Operator::DecrData, Operator::CloseLoop(0)]);
}

/// From the loop body with `v` left in the cell under the pointer, the
/// clearing loop ends with that cell zero, past the loop, in `2 v` steps.
proof fn lemma_clear_body(p: Seq<Operator>, m: Machine, input: Seq<u8>, fuel: nat)
    requires
        p == seq![Operator::OpenLoop(2), Operator::DecrData, Operator::CloseLoop(0)],
        valid_machine(m),
        !m.halted,
        m.pc == 1,
        m.tape[m.head] > 0,
        fuel >= 2 * m.tape[m.head],
    ensures
        run_spec(p, m, input, fuel) == (
            Machine { tape: m.tape.update(m.head, 0), pc: 3, ..m },
            Seq::<u8>::empty(),
            Ok::<Completion, crate::interpreter::RuntimeError>(Completion::Finished),
        ),
    decreases m.tape[m.head],
{
    let v = m.tape[m.head];
    let m2 = step_spec(p, m, None).0;
    assert(m2.tape[m2.head] == v - 1);
    let m3 = step_spec(p, m2, None).0;
    assert(run_spec(p, m, input, fuel) == run_spec(p, m2, input, (fuel - 1) as nat));
    assert(run_spec(p, m2, input, (fuel - 1) as nat) == run_spec(p, m3, input, (fuel - 2) as nat));
    if v == 1 {
        assert(m3.tape =~= m.tape.update(m.head, 0));
    } else {
        lemma_clear_body(p, m3, input, (fuel - 2) as nat);
        assert(m3.tape.update(m.head, 0) =~= m.tape.update(m.head, 0));
    }
}

/// The loop `[-]` run from its start on a cell holding `v` ends with that
/// cell zero and everything else as it was, after `2 v + 1` steps; on a zero
/// cell its body never runs: the first step jumps past the loop.
pub proof fn lemma_clear_loop(p: Seq<Operator>, m: Machine, input: Seq<u8>, fuel: nat)
    requires
        resolves(instructions(clear_loop()), p),
        valid_machine(m),
        !m.halted,
        m.pc == 0,
        fuel >= 2 * m.tape[m.head] + 1,
    ensures
        run_spec(p, m, input, fuel) == (
            Machine { tape: m.tape.update(m.head, 0), pc: 3, ..m },
            Seq::<u8>::empty(),
            Ok::<Completion, crate::interpreter::RuntimeError>(Completion::Finished),
        ),
        m.tape[m.head] == 0 ==> step_spec(p, m, None) == (
            Machine { pc: 3, ..m },
            Ok::<Event, crate::interpreter::RuntimeError>(Event::Stepped),
        ),
{
    lemma_clear_loop_program(p);
    let m2 = step_spec(p, m, None).0;
    assert(run_spec(p, m, input, fuel) == run_spec(p, m2, input, (fuel - 1) as nat));
    if m.tape[m.head] == 0 {
        assert(m.tape.update(m.head, 0) =~= m.tape);
        assert(m2 == Machine { pc: 3, ..m });
    } else {
        lemma_clear_body(p, m2, input, (fuel - 1) as nat);
    }
}

} // verus!
