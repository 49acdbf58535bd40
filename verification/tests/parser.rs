use vm_translator::command::{ArithOp, Command, Segment, TranslateError};
use vm_translator::lexer::{is_space_char, tokenize};
use vm_translator::parser::{CommandType, Parser};
use vm_translator::text::{decimal_string, parse_index, same_text};

fn lines(source: &[&str]) -> Vec<String> {
    source.iter().map(|s| s.to_string()).collect()
}

fn words(line: &str) -> Vec<String> {
    tokenize(line)
}

#[test]
fn tokenize_splits_at_white_space() {
    assert_eq!(words("push constant 7"), vec!["push", "constant", "7"]);
    assert_eq!(words("  push\tconstant   7  "), vec!["push", "constant", "7"]);
    assert_eq!(words("add"), vec!["add"]);
    assert_eq!(words("a"), vec!["a"]);
    assert_eq!(words(" a"), vec!["a"]);
    assert_eq!(words("a "), vec!["a"]);
}

#[test]
fn tokenize_cuts_comments() {
    assert_eq!(words("push constant 7 // seven"), vec!["push", "constant", "7"]);
    assert_eq!(words("add// sum"), vec!["add"]);
    assert_eq!(words("// nothing here"), Vec::<String>::new());
    assert_eq!(words("   // indented"), Vec::<String>::new());
    assert_eq!(words("a / b"), vec!["a", "/", "b"]);
    assert_eq!(words("a /"), vec!["a", "/"]);
    assert_eq!(words("a / / b"), vec!["a", "/", "/", "b"]);
    assert_eq!(words("a///b"), vec!["a"]);
    assert_eq!(words("x // y // z"), vec!["x"]);
    assert_eq!(words("/"), vec!["/"]);
    assert_eq!(words("//"), Vec::<String>::new());
}

#[test]
fn tokenize_blank_lines() {
    assert_eq!(words(""), Vec::<String>::new());
    assert_eq!(words("   "), Vec::<String>::new());
    assert_eq!(words("\t\r"), Vec::<String>::new());
}

#[test]
fn tokenize_beyond_ascii() {
    assert_eq!(words("push\u{00A0}constant\u{3000}7"), vec!["push", "constant", "7"]);
    assert_eq!(words("label caf\u{00E9} // \u{00FC}ber"), vec!["label", "caf\u{00E9}"]);
    assert_eq!(words("\u{2003}neg\u{2028}"), vec!["neg"]);
}

#[test]
fn white_space_is_what_unicode_says() {
    for code in 0u32..0x3100 {
        if let Some(c) = char::from_u32(code) {
            assert_eq!(is_space_char(c), c.is_whitespace(), "U+{:04X}", code);
        }
    }
    assert!(!is_space_char('\u{FEFF}'));
    assert!(!is_space_char('\u{10FFFF}'));
}

#[test]
fn words_agree_with_split_whitespace() {
    for line in [
        "push constant 7",
        "  a  b   c ",
        "",
        "x",
        "\tpush\tlocal\t0\t",
        "call Foo.bar 2",
        "one\u{0085}two",
    ] {
        let expected: Vec<String> = line.split_whitespace().map(String::from).collect();
        assert_eq!(words(line), expected);
    }
}

#[test]
fn parser_hands_out_commands_in_order() {
    let mut p = Parser::new(&lines(&[
        "// a program",
        "",
        "push constant 7",
        "   ",
        "push constant 8 // eight",
        "add",
    ]));
    assert_eq!(p.line_number(), 0);
    assert!(p.has_more_commands());
    p.advance();
    assert_eq!(*p.current_words(), vec!["push", "constant", "7"]);
    assert_eq!(p.line_number(), 3);
    assert!(p.has_more_commands());
    p.advance();
    assert_eq!(*p.current_words(), vec!["push", "constant", "8"]);
    assert_eq!(p.line_number(), 5);
    assert!(p.has_more_commands());
    p.advance();
    assert_eq!(*p.current_words(), vec!["add"]);
    assert_eq!(p.line_number(), 6);
    assert!(!p.has_more_commands());
}

#[test]
fn parser_of_nothing_has_no_commands() {
    let mut p = Parser::new(&lines(&[]));
    assert!(!p.has_more_commands());
    assert!(p.current_words().is_empty());
    assert_eq!(p.try_command_type(), None);
    let mut p = Parser::new(&lines(&["", "// only a comment", "  "]));
    assert!(!p.has_more_commands());
}

#[test]
fn command_types() {
    let source = lines(&[
        "add", "sub", "neg", "eq", "gt", "lt", "and", "or", "not", "push local 1", "pop local 1",
        "label L", "goto L", "if-goto L", "function f 2", "return", "call f 2",
    ]);
    let expected = [
        CommandType::Arithmetic,
        CommandType::Arithmetic,
        CommandType::Arithmetic,
        CommandType::Arithmetic,
        CommandType::Arithmetic,
        CommandType::Arithmetic,
        CommandType::Arithmetic,
        CommandType::Arithmetic,
        CommandType::Arithmetic,
        CommandType::Push,
        CommandType::Pop,
        CommandType::Label,
        CommandType::Goto,
        CommandType::If,
        CommandType::Function,
        CommandType::Return,
        CommandType::Call,
    ];
    let mut p = Parser::new(&source);
    for kind in expected {
        assert!(p.has_more_commands());
        p.advance();
        assert_eq!(p.command_type(), kind);
        assert_eq!(p.try_command_type(), Some(kind));
    }
    assert!(!p.has_more_commands());
}

#[test]
fn unknown_first_word_has_no_type() {
    let mut p = Parser::new(&lines(&["mul 1 2", "Push local 0", "if_goto L"]));
    for _ in 0..3 {
        p.advance();
        assert_eq!(p.try_command_type(), None);
        assert_eq!(p.command(), Err(TranslateError::MalformedCommand));
    }
}

#[test]
fn arg1_and_arg2() {
    let mut p = Parser::new(&lines(&[
        "add",
        "push constant 17",
        "pop that 5",
        "label LOOP",
        "goto LOOP",
        "if-goto END",
        "function Main.main 3",
        "call Math.multiply 2",
        "push temp +4",
        "push temp 007",
        "pop static -0",
        "push constant 32767",
    ]));
    p.advance();
    assert_eq!(p.arg1(), "add");
    p.advance();
    assert_eq!(p.arg1(), "constant");
    assert_eq!(p.arg2(), 17);
    p.advance();
    assert_eq!(p.arg1(), "that");
    assert_eq!(p.arg2(), 5);
    p.advance();
    assert_eq!(p.arg1(), "LOOP");
    p.advance();
    assert_eq!(p.arg1(), "LOOP");
    p.advance();
    assert_eq!(p.arg1(), "END");
    p.advance();
    assert_eq!(p.arg1(), "Main.main");
    assert_eq!(p.arg2(), 3);
    p.advance();
    assert_eq!(p.arg1(), "Math.multiply");
    assert_eq!(p.arg2(), 2);
    p.advance();
    assert_eq!(p.arg2(), 4);
    p.advance();
    assert_eq!(p.arg2(), 7);
    p.advance();
    assert_eq!(p.arg2(), 0);
    p.advance();
    assert_eq!(p.arg2(), 32767);
}

#[test]
fn parse_index_accepts_what_is_an_index() {
    assert_eq!(parse_index("0"), Some(0));
    assert_eq!(parse_index("7"), Some(7));
    assert_eq!(parse_index("10"), Some(10));
    assert_eq!(parse_index("32767"), Some(32767));
    assert_eq!(parse_index("+32767"), Some(32767));
    assert_eq!(parse_index("0000000000000000000000012"), Some(12));
    assert_eq!(parse_index("-0"), Some(0));
    assert_eq!(parse_index("-000"), Some(0));
    assert_eq!(parse_index("+0"), Some(0));
}

#[test]
fn parse_index_refuses_the_rest() {
    for word in [
        "", "+", "-", "32768", "99999", "4294967296", "99999999999999999999999999", "-1",
        "-32768", "1a", "a1", "1.5", "0x10", " 1", "1 ", "++1", "+-1", "1_000", "\u{0661}",
    ] {
        assert_eq!(parse_index(word), None, "{:?}", word);
    }
}

#[test]
fn parse_index_agrees_with_the_standard_parse() {
    for word in ["0", "5", "+5", "-5", "-0", "32767", "32768", "x", "", "12a", "0012", "+", "-"] {
        let expected = word.parse::<i16>().ok().filter(|v| *v >= 0);
        assert_eq!(parse_index(word), expected, "{:?}", word);
    }
}

#[test]
fn decimal_strings() {
    assert_eq!(decimal_string(0), "0");
    assert_eq!(decimal_string(9), "9");
    assert_eq!(decimal_string(10), "10");
    assert_eq!(decimal_string(256), "256");
    assert_eq!(decimal_string(32767), "32767");
    assert_eq!(decimal_string(1000000007), "1000000007");
    assert_eq!(decimal_string(usize::MAX), usize::MAX.to_string());
    for n in 0..2000usize {
        assert_eq!(decimal_string(n), n.to_string());
    }
}

#[test]
fn same_text_compares_characters() {
    assert!(same_text("", ""));
    assert!(same_text("add", "add"));
    assert!(!same_text("add", "adD"));
    assert!(!same_text("add", "ad"));
    assert!(!same_text("ad", "add"));
    assert!(!same_text("add", "sub"));
    assert!(same_text("caf\u{00E9}", "caf\u{00E9}"));
    assert!(!same_text("caf\u{00E9}", "cafe"));
}

#[test]
fn commands_from_words() {
    let cases: Vec<(&str, Result<Command, TranslateError>)> = vec![
        ("add", Ok(Command::Arithmetic(ArithOp::Add))),
        ("sub", Ok(Command::Arithmetic(ArithOp::Sub))),
        ("neg", Ok(Command::Arithmetic(ArithOp::Neg))),
        ("eq", Ok(Command::Arithmetic(ArithOp::Eq))),
        ("gt", Ok(Command::Arithmetic(ArithOp::Gt))),
        ("lt", Ok(Command::Arithmetic(ArithOp::Lt))),
        ("and", Ok(Command::Arithmetic(ArithOp::And))),
        ("or", Ok(Command::Arithmetic(ArithOp::Or))),
        ("not", Ok(Command::Arithmetic(ArithOp::Not))),
        ("push constant 7", Ok(Command::Push(Segment::Constant, 7))),
        ("push local 0", Ok(Command::Push(Segment::Local, 0))),
        ("push argument 1", Ok(Command::Push(Segment::Argument, 1))),
        ("push this 2", Ok(Command::Push(Segment::This, 2))),
        ("push that 3", Ok(Command::Push(Segment::That, 3))),
        ("push pointer 1", Ok(Command::Push(Segment::Pointer, 1))),
        ("push temp 7", Ok(Command::Push(Segment::Temp, 7))),
        ("push static 9", Ok(Command::Push(Segment::Static, 9))),
        ("pop local 4", Ok(Command::Pop(Segment::Local, 4))),
        ("pop static 4", Ok(Command::Pop(Segment::Static, 4))),
        ("label A", Ok(Command::Label("A".to_string()))),
        ("goto A", Ok(Command::Goto("A".to_string()))),
        ("if-goto A", Ok(Command::IfGoto("A".to_string()))),
        ("function F.g 3", Ok(Command::Function("F.g".to_string(), 3))),
        ("call F.g 0", Ok(Command::Call("F.g".to_string(), 0))),
        ("return", Ok(Command::Return)),
        ("pop constant 1", Err(TranslateError::UnsupportedOperation)),
        ("push heap 1", Err(TranslateError::UnsupportedOperation)),
        ("pop heap 1", Err(TranslateError::UnsupportedOperation)),
        ("push heap x", Err(TranslateError::MalformedCommand)),
        ("pop constant x", Err(TranslateError::MalformedCommand)),
        ("push local", Err(TranslateError::MalformedCommand)),
        ("push local 1 2", Err(TranslateError::MalformedCommand)),
        ("push local -1", Err(TranslateError::MalformedCommand)),
        ("push local 32768", Err(TranslateError::MalformedCommand)),
        ("push", Err(TranslateError::MalformedCommand)),
        ("add 1", Err(TranslateError::MalformedCommand)),
        ("label", Err(TranslateError::MalformedCommand)),
        ("label A B", Err(TranslateError::MalformedCommand)),
        ("goto", Err(TranslateError::MalformedCommand)),
        ("if-goto A B", Err(TranslateError::MalformedCommand)),
        ("function F", Err(TranslateError::MalformedCommand)),
        ("function F x", Err(TranslateError::MalformedCommand)),
        ("call F", Err(TranslateError::MalformedCommand)),
        ("call F 1 2", Err(TranslateError::MalformedCommand)),
        ("return 1", Err(TranslateError::MalformedCommand)),
        ("halt", Err(TranslateError::MalformedCommand)),
        ("", Err(TranslateError::MalformedCommand)),
    ];
    for (line, expected) in cases {
        assert_eq!(Command::parse(&words(line)), expected, "{:?}", line);
        if !line.is_empty() {
            let mut p = Parser::new(&lines(&[line]));
            p.advance();
            assert_eq!(p.command(), expected, "{:?}", line);
        }
    }
}
