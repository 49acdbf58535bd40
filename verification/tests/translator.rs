use vm_translator::code_writer::CodeWriter;
use vm_translator::command::{ArithOp, Command, Segment, TranslateError};
use vm_translator::translator::{translate_program, Failure, ProgramFailure, SourceFile};

fn lines(source: &[&str]) -> Vec<String> {
    source.iter().map(|s| s.to_string()).collect()
}

fn file(stem: &str, source: &[&str]) -> SourceFile {
    SourceFile { stem: stem.to_string(), lines: lines(source) }
}

#[test]
fn translate_dispatches_each_command() {
    let mut a = CodeWriter::new();
    let mut b = CodeWriter::new();
    a.set_filename("F".to_string());
    b.set_filename("F".to_string());

    assert_eq!(a.translate(Command::Function("F.f".to_string(), 2)), Ok(()));
    b.write_function("F.f".to_string(), 2);
    assert_eq!(a.translate(Command::Push(Segment::Static, 3)), Ok(()));
    b.translate_push(Segment::Static, 3);
    assert_eq!(a.translate(Command::Pop(Segment::Local, 1)), Ok(()));
    assert_eq!(b.translate_pop(Segment::Local, 1), Ok(()));
    assert_eq!(a.translate(Command::Arithmetic(ArithOp::Gt)), Ok(()));
    b.translate_arithmetic(ArithOp::Gt);
    assert_eq!(a.translate(Command::Label("L".to_string())), Ok(()));
    b.write_label("L".to_string());
    assert_eq!(a.translate(Command::IfGoto("L".to_string())), Ok(()));
    b.write_if("L".to_string());
    assert_eq!(a.translate(Command::Goto("L".to_string())), Ok(()));
    b.write_goto("L".to_string());
    assert_eq!(a.translate(Command::Call("F.f".to_string(), 1)), Ok(()));
    b.write_call("F.f".to_string(), 1);
    assert_eq!(a.translate(Command::Return), Ok(()));
    b.write_return();

    assert_eq!(a.lines(), b.lines());
    assert_eq!(a.instruction_count(), b.instruction_count());
    assert_eq!(a.call_sites(), 1);
}

#[test]
fn translate_refuses_pop_constant() {
    let mut w = CodeWriter::new();
    assert_eq!(
        w.translate(Command::Pop(Segment::Constant, 0)),
        Err(TranslateError::UnsupportedOperation)
    );
    assert!(w.lines().is_empty());
}

#[test]
fn translate_words_parses_and_translates() {
    let mut a = CodeWriter::new();
    let mut b = CodeWriter::new();
    assert_eq!(a.translate_words(&lines(&["push", "constant", "7"])), Ok(()));
    b.translate_push(Segment::Constant, 7);
    assert_eq!(a.lines(), b.lines());
    assert_eq!(
        a.translate_words(&lines(&["push", "constant"])),
        Err(TranslateError::MalformedCommand)
    );
    assert_eq!(
        a.translate_words(&lines(&["pop", "constant", "7"])),
        Err(TranslateError::UnsupportedOperation)
    );
    assert_eq!(a.translate_words(&lines(&[])), Err(TranslateError::MalformedCommand));
    assert_eq!(a.lines(), b.lines());
}

#[test]
fn translate_file_sets_the_file_and_translates_in_order() {
    let mut a = CodeWriter::new();
    let result = a.translate_file(
        "Foo",
        &lines(&["// statics", "push constant 3", "pop static 0  // keep", "", "push static 0"]),
    );
    assert_eq!(result, Ok(()));
    let mut b = CodeWriter::new();
    b.set_filename("Foo".to_string());
    b.translate_push(Segment::Constant, 3);
    assert_eq!(b.translate_pop(Segment::Static, 0), Ok(()));
    b.translate_push(Segment::Static, 0);
    assert_eq!(a.lines(), b.lines());
    assert!(a.lines().contains(&"@Foo.0".to_string()));
}

#[test]
fn translate_file_stops_at_the_first_bad_command() {
    let mut a = CodeWriter::new();
    let result = a.translate_file(
        "Foo",
        &lines(&["push constant 3", "pop constant 1 // no", "push constant 4", "bogus"]),
    );
    assert_eq!(
        result,
        Err(Failure {
            error: TranslateError::UnsupportedOperation,
            line: 2,
            command: lines(&["pop", "constant", "1"]),
        })
    );
    let mut b = CodeWriter::new();
    b.translate_push(Segment::Constant, 3);
    assert_eq!(a.lines(), b.lines());

    let mut a = CodeWriter::new();
    let result = a.translate_file("Foo", &lines(&["add", "push local x", "sub"]));
    assert_eq!(
        result,
        Err(Failure {
            error: TranslateError::MalformedCommand,
            line: 2,
            command: lines(&["push", "local", "x"]),
        })
    );
    assert_eq!(a.instruction_count(), 8);
}

#[test]
fn translate_file_keeps_the_count_across_files() {
    let mut w = CodeWriter::new();
    assert_eq!(w.translate_file("A", &lines(&["push constant 1", "push constant 2"])), Ok(()));
    assert_eq!(w.instruction_count(), 14);
    assert_eq!(w.translate_file("B", &lines(&["eq"])), Ok(()));
    let text = w.lines();
    assert_eq!(text[20], "@27");
    assert_eq!(text[25], "@30");
    assert_eq!(w.instruction_count(), 32);
}

#[test]
fn translate_file_keeps_call_sites_apart_across_files() {
    let mut w = CodeWriter::new();
    assert_eq!(w.translate_file("A", &lines(&["call F.f 0"])), Ok(()));
    assert_eq!(w.translate_file("B", &lines(&["call F.f 0"])), Ok(()));
    let text = w.lines();
    assert_eq!(text[49], "(Return.0)");
    assert_eq!(text[99], "(Return.1)");
}

#[test]
fn program_is_bootstrap_files_and_halt() {
    let files = vec![
        file("Sys", &["function Sys.init 0", "push constant 42", "return"]),
        file("Other", &["label X"]),
    ];
    let program = translate_program(&files).unwrap();
    let mut w = CodeWriter::new();
    w.write_init();
    w.set_filename("Sys".to_string());
    w.write_function("Sys.init".to_string(), 0);
    w.translate_push(Segment::Constant, 42);
    w.write_return();
    w.set_filename("Other".to_string());
    w.write_label("X".to_string());
    w.close();
    assert_eq!(program, w.lines());
    assert_eq!(program[0], "@256");
    assert_eq!(program[program.len() - 3], "(Sys.init$X)");
    assert_eq!(program[program.len() - 2], format!("@{}", 53 + 12 + 7 + 52));
    assert_eq!(program[program.len() - 1], "0;JMP");
}

#[test]
fn program_without_files_is_bootstrap_and_halt() {
    let program = translate_program(&Vec::new()).unwrap();
    assert_eq!(program.len(), 4 + 50 + 2);
    assert_eq!(program[program.len() - 2], "@53");
}

#[test]
fn program_reports_the_file_and_the_command() {
    let files = vec![
        file("A", &["push constant 1"]),
        file("B", &["// second file", "", "push constant 2", "  ", "call f // too short"]),
        file("C", &["bogus"]),
    ];
    assert_eq!(
        translate_program(&files),
        Err(ProgramFailure {
            file: 1,
            failure: Failure {
                error: TranslateError::MalformedCommand,
                line: 5,
                command: lines(&["call", "f"]),
            },
        })
    );
}
