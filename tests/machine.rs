use brainfuck::interpreter::{Completion, Event, Interpreter, RuntimeError};
use brainfuck::program::ParseError;

fn machine(src: &str) -> Interpreter {
    match Interpreter::new_from_raw(String::from(src)) {
        Ok(i) => i,
        Err(e) => panic!("{:?}", e),
    }
}

fn run(src: &str, input: &[u8], max_steps: usize) -> (Interpreter, Vec<u8>, Result<Completion, RuntimeError>) {
    let mut m = machine(src);
    let mut out = Vec::new();
    let r = m.run(&input.to_vec(), &mut out, max_steps);
    (m, out, r)
}

#[test]
fn fresh_machine_state() {
    let m = machine("+");
    assert_eq!(m.tape(), &vec![0u8]);
    assert_eq!(m.head_position(), 0);
    assert_eq!(m.program_counter(), 0);
    assert_eq!(m.current_value(), 0);
}

#[test]
fn new_from_raw_rejects_unbalanced() {
    assert!(matches!(
        Interpreter::new_from_raw(String::from("+]")),
        Err(ParseError::UnmatchedClose(1))
    ));
    assert!(matches!(
        Interpreter::new_from_raw(String::from("[[]")),
        Err(ParseError::UnmatchedOpen(ref v)) if v == &vec![0]
    ));
}

#[test]
fn increments_then_output_give_that_byte() {
    for n in [0usize, 1, 65, 200, 255] {
        let src = "+".repeat(n) + ".";
        let (m, out, r) = run(&src, &[], 1000);
        assert_eq!(r, Ok(Completion::Finished));
        assert_eq!(out, vec![n as u8]);
        assert_eq!(m.tape(), &vec![n as u8]);
    }
}

#[test]
fn cells_wrap_around() {
    let (m, _, r) = run("-", &[], 10);
    assert_eq!(r, Ok(Completion::Finished));
    assert_eq!(m.current_value(), 255);
    let (m, _, _) = run(&"+".repeat(256), &[], 1000);
    assert_eq!(m.current_value(), 0);
}

#[test]
fn clear_loop_zeroes_a_nonzero_cell() {
    let (m, out, r) = run("+++++[-]", &[], 100);
    assert_eq!(r, Ok(Completion::Finished));
    assert!(out.is_empty());
    assert_eq!(m.tape(), &vec![0u8]);
    assert_eq!(m.program_counter(), 8);
}

#[test]
fn clear_loop_on_zero_cell_skips_its_body() {
    let mut m = machine("[-]");
    assert_eq!(m.step(None), Ok(Event::Stepped));
    assert_eq!(m.program_counter(), 3);
    assert_eq!(m.tape(), &vec![0u8]);
    assert_eq!(m.step(None), Ok(Event::Stopped));
}

#[test]
fn copy_loop_moves_three() {
    let (m, out, r) = run("+++><[->+<]", &[], 100);
    assert_eq!(r, Ok(Completion::Finished));
    assert!(out.is_empty());
    assert_eq!(m.tape(), &vec![0u8, 3]);
    assert_eq!(m.head_position(), 0);
}

#[test]
fn moving_right_grows_by_one_cell_per_step() {
    let mut m = machine(">>><<>>>");
    let mut lens = Vec::new();
    for _ in 0..8 {
        assert_eq!(m.step(None), Ok(Event::Stepped));
        lens.push(m.tape().len());
    }
    assert_eq!(lens, vec![2, 3, 4, 4, 4, 4, 4, 5]);
    assert_eq!(m.tape(), &vec![0u8; 5]);
    assert_eq!(m.head_position(), 4);
}

#[test]
fn moving_left_of_the_first_cell_fails() {
    let (m, out, r) = run("+.<", &[], 10);
    assert_eq!(r, Err(RuntimeError::PointerUnderflow(2)));
    assert_eq!(out, vec![1]);
    assert_eq!(m.program_counter(), 2);
    assert_eq!(m.head_position(), 0);
}

#[test]
fn input_is_stored_in_the_cell() {
    let (m, out, r) = run(",+.,.", b"AZ", 10);
    assert_eq!(r, Ok(Completion::Finished));
    assert_eq!(out, b"BZ".to_vec());
    assert_eq!(m.current_value_as_char(), 'Z');
}

#[test]
fn missing_input_is_an_error() {
    let (_, _, r) = run("+,", &[], 10);
    assert_eq!(r, Err(RuntimeError::InputExhausted(1)));
}

#[test]
fn step_asks_for_input() {
    let mut m = machine(",");
    assert_eq!(m.step(None), Ok(Event::NeedsInput));
    assert_eq!(m.program_counter(), 0);
    assert_eq!(m.step(Some(7)), Ok(Event::Stepped));
    assert_eq!(m.current_value(), 7);
    assert_eq!(m.step(None), Ok(Event::Stopped));
}

#[test]
fn step_reports_output() {
    let mut m = machine("++.");
    m.step(None).unwrap();
    m.step(None).unwrap();
    assert_eq!(m.step(None), Ok(Event::Output(2)));
}

#[test]
fn halt_stops_the_run() {
    let (m, out, r) = run("+~+.", &[], 10);
    assert_eq!(r, Ok(Completion::Halted));
    assert!(out.is_empty());
    assert_eq!(m.current_value(), 1);
    assert_eq!(m.program_counter(), 1);
}

#[test]
fn step_limit_ends_an_endless_loop() {
    let (m, _, r) = run("+[]", &[], 10);
    assert_eq!(r, Ok(Completion::StepLimit));
    assert_eq!(m.current_value(), 1);
}

#[test]
fn trace_shows_pointer_counter_and_tape() {
    let mut m = machine(">++++++++[<++++++++>-]<+");
    let mut out = Vec::new();
    m.run(&vec![], &mut out, 1000).unwrap();
    assert_eq!(m.to_string(), "Head pos: 0\nProgram counter: 24\n[65]\n\0 \n\n");
    let mut m = machine(">");
    m.step(None).unwrap();
    assert_eq!(m.to_string(), "Head pos: 1\nProgram counter: 1\n\0 \n[0]\n\n");
}
