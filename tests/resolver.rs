use brainfuck::interpreter::{str_to_program, Operator};
use brainfuck::program::ParseError;

#[test]
fn empty_source_gives_empty_program() {
    assert_eq!(str_to_program(String::new()), Ok(vec![]));
}

#[test]
fn comments_are_ignored() {
    assert_eq!(
        str_to_program(String::from("a+ b-\n<x>.,~")),
        Ok(vec![
            Operator::IncrData,
            Operator::DecrData,
            Operator::DecrDataPtr,
            Operator::IncrDataPtr,
            Operator::OutputData,
            Operator::InputData,
            Operator::Halt,
        ])
    );
}

#[test]
fn empty_loop_resolves() {
    assert_eq!(
        str_to_program(String::from("[]")),
        Ok(vec![Operator::OpenLoop(1), Operator::CloseLoop(0)])
    );
}

#[test]
fn nested_and_adjacent_loops_resolve() {
    assert_eq!(
        str_to_program(String::from("[[-]][+]")),
        Ok(vec![
            Operator::OpenLoop(4),
            Operator::OpenLoop(3),
            Operator::DecrData,
            Operator::CloseLoop(1),
            Operator::CloseLoop(0),
            Operator::OpenLoop(7),
            Operator::IncrData,
            Operator::CloseLoop(5),
        ])
    );
}

#[test]
fn targets_are_mutual_inverses() {
    let p = str_to_program(String::from("+[>[-]<[[]>]]++[.]")).unwrap();
    for (i, op) in p.iter().enumerate() {
        match *op {
            Operator::OpenLoop(j) => {
                assert!(i < j && j < p.len());
                assert_eq!(p[j], Operator::CloseLoop(i));
            }
            Operator::CloseLoop(j) => {
                assert!(j < i);
                assert_eq!(p[j], Operator::OpenLoop(i));
            }
            _ => {}
        }
    }
}

#[test]
fn unmatched_close_is_named() {
    assert_eq!(str_to_program(String::from("]")), Err(ParseError::UnmatchedClose(0)));
    assert_eq!(str_to_program(String::from("x[]y]")), Err(ParseError::UnmatchedClose(2)));
    assert_eq!(str_to_program(String::from("][")), Err(ParseError::UnmatchedClose(0)));
}

#[test]
fn unmatched_opens_are_all_named() {
    assert_eq!(str_to_program(String::from("[")), Err(ParseError::UnmatchedOpen(vec![0])));
    assert_eq!(
        str_to_program(String::from("[+[[]")),
        Err(ParseError::UnmatchedOpen(vec![0, 2]))
    );
    assert_eq!(
        str_to_program(String::from("[] [")),
        Err(ParseError::UnmatchedOpen(vec![2]))
    );
}
