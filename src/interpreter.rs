//! The tape machine: a growable tape of byte cells, a pointer into it and a
//! program counter, advanced one operator at a time.
use vstd::prelude::*;
pub use crate::program::{Operator, str_to_program};
use crate::program::{ParseError, parsed, resolves, lemma_targets_inverse, instructions, balanced};
use crate::text::{decimal, push_char, push_decimal, push_text};

verus! {

/// The state of a run, as a value: the tape, the pointer, the program
/// counter and whether a halt operator was executed.
pub struct Machine {
    pub tape: Seq<u8>,
    pub head: int,
    pub pc: int,
    pub halted: bool,
}

/// What one step did, for the driver that performs the side effects.
#[derive(PartialEq, Eq, Copy, Clone, Debug, Structural)]
pub enum Event {
    /// An operator without a side effect ran.
    Stepped,
    /// An output operator ran; the byte is to be written out.
    Output(u8),
    /// The current operator reads input: call again with the byte.
    NeedsInput,
    /// The run is over: the program counter is past the end, or a halt ran.
    Stopped,
}

/// Why a run stopped short.
#[derive(PartialEq, Eq, Copy, Clone, Debug, Structural)]
pub enum RuntimeError {
    /// The operator at this index moved the pointer left of the first cell.
    PointerUnderflow(usize),
    /// The operator at this index reads input, and none is left.
    InputExhausted(usize),
}

/// How a run that did not fail ended.
#[derive(PartialEq, Eq, Copy, Clone, Debug, Structural)]
pub enum Completion {
    /// The program counter went past the last operator.
    Finished,
    /// A halt operator ran.
    Halted,
    /// The step budget ran out first.
    StepLimit,
}

/// The state in which every run starts.
pub open spec fn initial_machine() -> Machine {
    Machine { tape: seq![0u8], head: 0, pc: 0, halted: false }
}

/// The pointer is in range.
pub open spec fn valid_machine(m: Machine) -> bool {
    0 <= m.head < m.tape.len()
}

/// No further operator runs in state `m`.
pub open spec fn stopped(prog: Seq<Operator>, m: Machine) -> bool {
    m.halted || m.pc >= prog.len()
}

/// `c + 1` modulo 256.
pub open spec fn incr_cell(c: u8) -> u8 {
    if c == 255 {
        0
    } else {
        (c + 1) as u8
    }
}

/// `c - 1` modulo 256.
pub open spec fn decr_cell(c: u8) -> u8 {
    if c == 0 {
        255
    } else {
        (c - 1) as u8
    }
}

/// The tape after the pointer moved right from `head`: one zero cell more
/// when the pointer leaves the end, else the same.
pub open spec fn grow_tape(tape: Seq<u8>, head: int) -> Seq<u8> {
    if head + 1 >= tape.len() {
        tape.push(0)
    } else {
        tape
    }
}

/// One step of `prog` in state `m`, with `input` as the byte for an input
/// operator: the next state and what happened. A failed step, and an input
/// operator without a byte, leave the state as it was.
pub open spec fn step_spec(prog: Seq<Operator>, m: Machine, input: Option<u8>) -> (Machine, Result<Event, RuntimeError>) {
    if stopped(prog, m) {
        (m, Ok(Event::Stopped))
    } else {
        let cell = m.tape[m.head];
        let next = Machine { pc: m.pc + 1, ..m };
        match prog[m.pc] {
            Operator::IncrDataPtr => (
                Machine { tape: grow_tape(m.tape, m.head), head: m.head + 1, ..next },
                Ok(Event::Stepped),
            ),
            Operator::DecrDataPtr => if m.head == 0 {
                (m, Err(RuntimeError::PointerUnderflow(m.pc as usize)))
            } else {
                (Machine { head: m.head - 1, ..next }, Ok(Event::Stepped))
            },
            Operator::IncrData => (
                Machine { tape: m.tape.update(m.head, incr_cell(cell)), ..next },
                Ok(Event::Stepped),
            ),
            Operator::DecrData => (
                Machine { tape: m.tape.update(m.head, decr_cell(cell)), ..next },
                Ok(Event::Stepped),
            ),
            Operator::OutputData => (next, Ok(Event::Output(cell))),
            Operator::InputData => match input {
                None => (m, Ok(Event::NeedsInput)),
                Some(b) => (Machine { tape: m.tape.update(m.head, b), ..next }, Ok(Event::Stepped)),
            },
            Operator::OpenLoop(t) => if cell == 0 {
                (Machine { pc: t + 1, ..m }, Ok(Event::Stepped))
            } else {
                (next, Ok(Event::Stepped))
            },
            Operator::CloseLoop(t) => if cell != 0 {
                (Machine { pc: t + 1, ..m }, Ok(Event::Stepped))
            } else {
                (next, Ok(Event::Stepped))
            },
            Operator::Halt => (Machine { halted: true, ..m }, Ok(Event::Stepped)),
        }
    }
}

/// Running `prog` from `m` for at most `fuel` operators, reading input bytes
/// from `input` in order: the final state, the bytes written out, and how
/// the run ended.
pub open spec fn run_spec(prog: Seq<Operator>, m: Machine, input: Seq<u8>, fuel: nat) -> (Machine, Seq<u8>, Result<Completion, RuntimeError>)
    decreases fuel,
{
    if stopped(prog, m) {
        (m, Seq::empty(), Ok(if m.halted { Completion::Halted } else { Completion::Finished }))
    } else if fuel == 0 {
        (m, Seq::empty(), Ok(Completion::StepLimit))
    } else {
        let reads = prog[m.pc] is InputData;
        if reads && input.len() == 0 {
            (m, Seq::empty(), Err(RuntimeError::InputExhausted(m.pc as usize)))
        } else {
            let (m2, ev) = step_spec(prog, m, if reads { Some(input[0]) } else { None });
            let rest = if reads { input.drop_first() } else { input };
            match ev {
                Err(e) => (m2, Seq::empty(), Err(e)),
                Ok(ev) => {
                    let (m3, out, res) = run_spec(prog, m2, rest, (fuel - 1) as nat);
                    (m3, if let Event::Output(b) = ev { seq![b] + out } else { out }, res)
                },
            }
        }
    }
}

/// The line that shows one cell in a trace: its number in brackets under
/// the pointer, else its character and a space.
pub open spec fn cell_line(cell: u8, at_head: bool) -> Seq<char> {
    if at_head {
        (seq!['['] + decimal(cell as nat)).push(']').push('\n')
    } else {
        seq![cell as char, ' ', '\n']
    }
}

/// The lines of the first `n` cells of `tape`, the pointer at `head`.
pub open spec fn tape_lines(tape: Seq<u8>, head: int, n: int) -> Seq<char>
    decreases n,
{
    if n <= 0 {
        Seq::empty()
    } else {
        tape_lines(tape, head, n - 1) + cell_line(tape[n - 1], n - 1 == head)
    }
}

/// The trace of state `m`: pointer and counter, then the tape, one cell a
/// line, then an empty line.
pub open spec fn render(m: Machine) -> Seq<char> {
    ("Head pos: "@ + decimal(m.head as nat) + "\nProgram counter: "@ + decimal(m.pc as nat)
        + "\n"@ + tape_lines(m.tape, m.head, m.tape.len() as int)).push('\n')
}

/// Every jump target of `prog` is an index into it.
pub open spec fn targets_in_range(prog: Seq<Operator>) -> bool {
    forall|i: int| 0 <= i < prog.len() ==> match #[trigger] prog[i] {
        Operator::OpenLoop(t) => t < prog.len(),
        Operator::CloseLoop(t) => t < prog.len(),
        _ => true,
    }
}

/// A program with its execution state.
pub struct Interpreter {
    program: Vec<Operator>,
    tape_array: Vec<u8>,
    head_position: usize,
    program_counter: usize,
    halted: bool,
}

impl View for Interpreter {
    type V = Machine;

    closed spec fn view(&self) -> Machine {
        Machine {
            tape: self.tape_array@,
            head: self.head_position as int,
            pc: self.program_counter as int,
            halted: self.halted,
        }
    }
}

impl Interpreter {
    /// The program being run.
    pub closed spec fn code(&self) -> Seq<Operator> {
        self.program@
    }

    /// The pointer is on the tape, the counter at most one past the end,
    /// and every jump lands inside the program.
    pub closed spec fn wf(&self) -> bool {
        &&& valid_machine(self@)
        &&& self.program_counter <= self.program@.len()
        &&& targets_in_range(self.program@)
    }

    /// Resolves the source text `r` and sets up a fresh run of it: tape
    /// `[0]`, pointer and program counter at 0.
    pub fn new_from_raw(r: String) -> (res: Result<Interpreter, ParseError>)
        ensures
            match res {
                Ok(i) => {
                    &&& balanced(instructions(r@))
                    &&& resolves(instructions(r@), i.code())
                    &&& i.wf()
                    &&& i@ == initial_machine()
                },
                Err(e) => parsed(r@, Err(e)),
            },
    {
        let parsed_program = str_to_program(r);
        match parsed_program {
            Err(e) => Err(e),
            Ok(program) => {
                proof {
                    lemma_targets_inverse(instructions(r@), program@);
                }
                let tape_array: Vec<u8> = vec![0];
                assert(tape_array@ =~= seq![0u8]);
                Ok(Interpreter {
                    program,
                    tape_array,
                    head_position: 0,
                    program_counter: 0,
                    halted: false,
                })
            },
        }
    }

    /// The cells of the tape.
    pub fn tape(&self) -> (t: &Vec<u8>)
        ensures
            t@ == self@.tape,
    {
        &self.tape_array
    }

    /// The index of the cell under the pointer.
    pub fn head_position(&self) -> (h: usize)
        ensures
            h == self@.head,
    {
        self.head_position
    }

    /// The index of the next operator to run.
    pub fn program_counter(&self) -> (pc: usize)
        ensures
            pc == self@.pc,
    {
        self.program_counter
    }

    /// The cell under the pointer.
    pub fn current_value(&self) -> (v: u8)
        requires
            self.wf(),
        ensures
            v == self@.tape[self@.head],
    {
        self.tape_array[self.head_position]
    }

    /// The cell under the pointer, as the character of that code.
    pub fn current_value_as_char(&self) -> (c: char)
        requires
            self.wf(),
        ensures
            c == self@.tape[self@.head] as char,
    {
        self.current_value() as char
    }

    /// Runs the operator at the program counter, with `input` as the byte
    /// that an input operator stores. An input operator without a byte
    /// changes nothing and asks for one; a stopped run stays as it is.
    pub fn step(&mut self, input: Option<u8>) -> (r: Result<Event, RuntimeError>)
        requires
            old(self).wf(),
        ensures
            final(self).wf(),
            final(self).code() == old(self).code(),
            (final(self)@, r) == step_spec(old(self).code(), old(self)@, input),
    {
        if self.halted || self.program_counter >= self.program.len() {
            return Ok(Event::Stopped);
        }
        let pc = self.program_counter;
        let h = self.head_position;
        let op = self.program[pc];
        let cell = self.tape_array[h];
        match op {
            Operator::IncrDataPtr => {
                let len = self.tape_array.len();
                self.head_position = h + 1;
                if self.head_position >= len {
                    self.tape_array.push(0);
                }
            },
            Operator::DecrDataPtr => {
                if h == 0 {
                    return Err(RuntimeError::PointerUnderflow(pc));
                }
                self.head_position = h - 1;
            },
            Operator::IncrData => {
                self.tape_array.set(h, cell.wrapping_add(1));
            },
            Operator::DecrData => {
                self.tape_array.set(h, cell.wrapping_sub(1));
            },
            Operator::OutputData => {
                self.program_counter = pc + 1;
                return Ok(Event::Output(cell));
            },
            Operator::InputData => {
                match input {
                    None => {
                        return Ok(Event::NeedsInput);
                    },
                    Some(b) => {
                        self.tape_array.set(h, b);
                    },
                }
            },
            Operator::OpenLoop(t) => {
                if cell == 0 {
                    self.program_counter = t;
                }
            },
            Operator::CloseLoop(t) => {
                if cell != 0 {
                    self.program_counter = t;
                }
            },
            Operator::Halt => {
                self.halted = true;
                return Ok(Event::Stepped);
            },
        }
        self.program_counter = self.program_counter + 1;
        Ok(Event::Stepped)
    }

    /// Runs at most `max_steps` operators, taking input bytes from `input` in
    /// order and appending every output byte to `output`. Output written
    /// before an error stays written.
    pub fn run(&mut self, input: &Vec<u8>, output: &mut Vec<u8>, max_steps: usize) -> (r: Result<Completion, RuntimeError>)
        requires
            old(self).wf(),
        ensures
            final(self).wf(),
            final(self).code() == old(self).code(),
            ({
                let (m, out, res) = run_spec(old(self).code(), old(self)@, input@, max_steps as nat);
                &&& final(self)@ == m
                &&& final(output)@ == old(output)@ + out
                &&& r == res
            }),
    {
        let ghost prog = self.code();
        let ghost whole = run_spec(prog, self@, input@, max_steps as nat);
        let ghost written: Seq<u8> = Seq::empty();
        let ghost out0 = output@;
        let mut fuel = max_steps;
        let mut pos: usize = 0;
        let mut result: Result<Completion, RuntimeError> = Ok(Completion::StepLimit);
        assert(input@.skip(0) =~= input@);
        assert(Seq::<u8>::empty() + whole.1 =~= whole.1);
        assert(out0 + Seq::<u8>::empty() =~= out0);
        loop
            invariant_except_break
                pos <= input@.len(),
                ({
                    let (m, out, res) = run_spec(prog, self@, input@.skip(pos as int), fuel as nat);
                    whole == (m, written + out, res)
                }),
            invariant
                self.wf(),
                self.code() == prog,
                output@ == out0 + written,
            ensures
                whole == (self@, written, result),
            decreases fuel,
        {
            let ghost rest = input@.skip(pos as int);
            assert(written + Seq::<u8>::empty() =~= written);
            if self.halted || self.program_counter >= self.program.len() {
                result = Ok(
                    if self.halted {
                        Completion::Halted
                    } else {
                        Completion::Finished
                    },
                );
                break;
            }
            if fuel == 0 {
                result = Ok(Completion::StepLimit);
                break;
            }
            let reads = matches!(self.program[self.program_counter], Operator::InputData);
            if reads && pos >= input.len() {
                result = Err(RuntimeError::InputExhausted(self.program_counter));
                break;
            }
            let byte = if reads {
                Some(input[pos])
            } else {
                None
            };
            match self.step(byte) {
                Err(e) => {
                    result = Err(e);
                    break;
                },
                Ok(Event::Output(b)) => {
                    output.push(b);
                    proof {
                        let tail = run_spec(prog, self@, rest, (fuel - 1) as nat).1;
                        assert(written + (seq![b] + tail) =~= written.push(b) + tail);
                        written = written.push(b);
                    }
                },
                Ok(_) => {},
            }
            if reads {
                assert(rest.drop_first() =~= input@.skip(pos + 1));
                pos = pos + 1;
            }
            fuel = fuel - 1;
        }
        result
    }

    /// The trace of the current state, for following a run step by step.
    pub fn to_string(&self) -> (s: String)
        requires
            self.wf(),
        ensures
            s@ == render(self@),
    {
        let mut tape_state = String::new();
        push_text(&mut tape_state, "Head pos: ");
        push_decimal(&mut tape_state, self.head_position);
        push_text(&mut tape_state, "\nProgram counter: ");
        push_decimal(&mut tape_state, self.program_counter);
        push_text(&mut tape_state, "\n");
        let ghost header = tape_state@;
        let n = self.tape_array.len();
        let mut idx: usize = 0;
        while idx < n
            invariant
                n == self.tape_array@.len(),
                idx <= n,
                tape_state@ == header + tape_lines(self@.tape, self@.head, idx as int),
            decreases n - idx,
        {
            let cell = self.tape_array[idx];
            let ghost before = tape_state@;
            if self.head_position == idx {
                push_char(&mut tape_state, '[');
                push_decimal(&mut tape_state, cell as usize);
                push_char(&mut tape_state, ']');
            } else {
                push_char(&mut tape_state, cell as char);
                push_char(&mut tape_state, ' ');
            }
            push_char(&mut tape_state, '\n');
            assert(tape_state@ =~= before + cell_line(cell, idx == self.head_position));
            assert(header + tape_lines(self@.tape, self@.head, idx + 1) =~= before + cell_line(
                cell,
                idx == self.head_position,
            ));
            idx = idx + 1;
        }
        push_char(&mut tape_state, '\n');
        tape_state
    }
}

} // verus!
