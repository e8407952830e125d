use brainfuck::compiler::{compile_to_c, compile_with_tape_size, emit_c, EmitError};
use brainfuck::interpreter::Operator;
use brainfuck::program::ParseError;
use brainfuck::utils::new_extension;

#[test]
fn increments_and_output_emit_one_statement_each() {
    assert_eq!(
        compile_to_c(String::from("++.")).unwrap(),
        "#include<stdio.h>\nint main() {\n\tchar tape [ 1000 ] = {0};\n\tchar *ptr;\n\tptr = &tape[0];\n\t(*ptr)++;\n\t(*ptr)++;\n\tputchar(*ptr);\n\treturn 0;\n}"
    );
}

#[test]
fn loops_are_indented_by_depth() {
    assert_eq!(
        compile_to_c(String::from("[>[<,]~]")).unwrap(),
        "#include<stdio.h>\nint main() {\n\tchar tape [ 1000 ] = {0};\n\tchar *ptr;\n\tptr = &tape[0];\n\twhile (*ptr) {\n\t\tptr++;\n\t\twhile (*ptr) {\n\t\t\tptr--;\n\t\t\t*ptr = getchar();\n\t\t}\n\t\treturn 0;\n\t}\n\treturn 0;\n}"
    );
}

#[test]
fn tape_size_is_configurable() {
    let c = compile_with_tape_size(String::new(), 30000).unwrap();
    assert_eq!(
        c,
        "#include<stdio.h>\nint main() {\n\tchar tape [ 30000 ] = {0};\n\tchar *ptr;\n\tptr = &tape[0];\n\treturn 0;\n}"
    );
    let c = compile_with_tape_size(String::new(), 7).unwrap();
    assert!(c.contains("char tape [ 7 ] = {0};"));
}

#[test]
fn compile_rejects_unbalanced_source() {
    assert_eq!(compile_to_c(String::from("+]")), Err(ParseError::UnmatchedClose(1)));
    assert_eq!(compile_to_c(String::from("[")), Err(ParseError::UnmatchedOpen(vec![0])));
}

#[test]
fn emitter_rejects_bad_nesting() {
    assert_eq!(
        emit_c(&vec![Operator::IncrData, Operator::CloseLoop(0)], 10),
        Err(EmitError::UnmatchedClose(1))
    );
    assert_eq!(
        emit_c(&vec![Operator::OpenLoop(0), Operator::OpenLoop(0)], 10),
        Err(EmitError::UnclosedLoops(2))
    );
}

#[test]
fn emitter_ignores_jump_targets() {
    let a = emit_c(&vec![Operator::OpenLoop(9), Operator::CloseLoop(9)], 10).unwrap();
    let b = emit_c(&vec![Operator::OpenLoop(1), Operator::CloseLoop(0)], 10).unwrap();
    assert_eq!(a, b);
}

#[test]
fn new_extension_keeps_last_part() {
    assert_eq!(new_extension("prog", ".c"), Ok(String::from("prog.c")));
    assert_eq!(new_extension("dir/sub/prog.bf", ".c"), Ok(String::from("bf.c")));
    assert_eq!(new_extension("dir/", ".c"), Ok(String::from(".c")));
}
