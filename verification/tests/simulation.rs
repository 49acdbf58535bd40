use std::collections::HashMap;

use vm_translator::code_writer::CodeWriter;
use vm_translator::command::{ArithOp, Segment};
use vm_translator::translator::{translate_program, SourceFile};

/// What a line of the target program asks the machine to do.
enum Line {
    Load(String),
    Compute(String, String, String),
}

/// A small interpreter of the target machine, with an assembler in front:
/// labels name the position of the instruction that follows them, and any
/// other symbol is a variable that gets the next free cell from 16 on.
struct Machine {
    rom: Vec<Line>,
    symbols: HashMap<String, i32>,
    next_variable: i32,
    ram: Vec<i16>,
    a: i16,
    d: i16,
    pc: usize,
}

impl Machine {
    fn assemble(lines: &[String]) -> Machine {
        let mut symbols: HashMap<String, i32> = HashMap::new();
        for (name, address) in
            [("SP", 0), ("LCL", 1), ("ARG", 2), ("THIS", 3), ("THAT", 4), ("R13", 13), ("R14", 14)]
        {
            symbols.insert(name.to_string(), address);
        }
        let mut rom = Vec::new();
        for line in lines {
            if line.starts_with('(') {
                assert!(line.ends_with(')'));
                let name = &line[1..line.len() - 1];
                let previous = symbols.insert(name.to_string(), rom.len() as i32);
                assert!(previous.is_none(), "label {} is defined twice", name);
            } else if let Some(rest) = line.strip_prefix('@') {
                rom.push(Line::Load(rest.to_string()));
            } else {
                let (dest, rest) = match line.split_once('=') {
                    Some((dest, rest)) => (dest.to_string(), rest.to_string()),
                    None => (String::new(), line.clone()),
                };
                let (comp, jump) = match rest.split_once(';') {
                    Some((comp, jump)) => (comp.to_string(), jump.to_string()),
                    None => (rest, String::new()),
                };
                rom.push(Line::Compute(dest, comp, jump));
            }
        }
        Machine { rom, symbols, next_variable: 16, ram: vec![0; 32768], a: 0, d: 0, pc: 0 }
    }

    fn address_of(&mut self, symbol: &str) -> i32 {
        if let Ok(n) = symbol.parse::<i32>() {
            return n;
        }
        if let Some(address) = self.symbols.get(symbol) {
            return *address;
        }
        let address = self.next_variable;
        self.next_variable += 1;
        self.symbols.insert(symbol.to_string(), address);
        address
    }

    fn step(&mut self) {
        let (dest, comp, jump) = match &self.rom[self.pc] {
            Line::Load(symbol) => {
                let symbol = symbol.clone();
                let address = self.address_of(&symbol);
                assert!((0..32768).contains(&address), "address {} out of range", address);
                self.a = address as i16;
                self.pc += 1;
                return;
            }
            Line::Compute(dest, comp, jump) => (dest.clone(), comp.clone(), jump.clone()),
        };
        let a = self.a;
        let d = self.d;
        let m = if comp.contains('M') || dest.contains('M') {
            assert!(a >= 0, "memory access at a negative address");
            self.ram[a as usize]
        } else {
            0
        };
        let value: i16 = match comp.as_str() {
            "0" => 0,
            "1" => 1,
            "-1" => -1,
            "D" => d,
            "A" => a,
            "M" => m,
            "!D" => !d,
            "!A" => !a,
            "!M" => !m,
            "-D" => d.wrapping_neg(),
            "-A" => a.wrapping_neg(),
            "-M" => m.wrapping_neg(),
            "D+1" => d.wrapping_add(1),
            "A+1" => a.wrapping_add(1),
            "M+1" => m.wrapping_add(1),
            "D-1" => d.wrapping_sub(1),
            "A-1" => a.wrapping_sub(1),
            "M-1" => m.wrapping_sub(1),
            "D+A" | "A+D" => d.wrapping_add(a),
            "D+M" | "M+D" => d.wrapping_add(m),
            "D-A" => d.wrapping_sub(a),
            "D-M" => d.wrapping_sub(m),
            "A-D" => a.wrapping_sub(d),
            "M-D" => m.wrapping_sub(d),
            "D&A" | "A&D" => d & a,
            "D&M" | "M&D" => d & m,
            "D|A" | "A|D" => d | a,
            "D|M" | "M|D" => d | m,
            other => panic!("unknown computation {}", other),
        };
        if dest.contains('M') {
            self.ram[a as usize] = value;
        }
        if dest.contains('A') {
            self.a = value;
        }
        if dest.contains('D') {
            self.d = value;
        }
        let taken = match jump.as_str() {
            "" => false,
            "JGT" => value > 0,
            "JEQ" => value == 0,
            "JGE" => value >= 0,
            "JLT" => value < 0,
            "JNE" => value != 0,
            "JLE" => value <= 0,
            "JMP" => true,
            other => panic!("unknown jump {}", other),
        };
        if taken {
            assert!(a >= 0, "jump to a negative address");
            self.pc = a as usize;
        } else {
            self.pc += 1;
        }
    }

    /// Runs until control stands at `stop`, and panics if it does not get
    /// there.
    fn run_to(&mut self, stop: usize) {
        let mut steps = 0;
        while self.pc != stop {
            assert!(self.pc < self.rom.len(), "control left the program at {}", self.pc);
            self.step();
            steps += 1;
            assert!(steps < 1_000_000, "the program does not reach {}", stop);
        }
    }

    /// Runs until control stands at `stop` with `depth` values on the
    /// stack, and panics if that does not happen.
    fn run_to_depth(&mut self, stop: usize, depth: usize) {
        let mut steps = 0;
        while !(self.pc == stop && self.sp() == 256 + depth) {
            assert!(self.pc < self.rom.len(), "control left the program at {}", self.pc);
            self.step();
            steps += 1;
            assert!(steps < 1_000_000, "the program does not reach {}", stop);
        }
    }

    fn sp(&self) -> usize {
        self.ram[0] as usize
    }

    fn stack(&self) -> Vec<i16> {
        self.ram[256..self.sp()].to_vec()
    }

    fn label(&self, name: &str) -> usize {
        self.symbols[name] as usize
    }
}

/// Runs what the writer has written, from its first instruction to the
/// position behind its last, on a machine whose stack pointer is 256.
fn run(w: &CodeWriter) -> Machine {
    let mut m = Machine::assemble(&w.lines());
    m.ram[0] = 256;
    m.run_to(w.instruction_count());
    m
}

fn push_all(w: &mut CodeWriter, values: &[i16]) {
    for v in values {
        if *v >= 0 {
            w.translate_push(Segment::Constant, *v);
        } else {
            w.translate_push(Segment::Constant, -(*v + 1));
            w.translate_arithmetic(ArithOp::Not);
        }
    }
}

fn binary(op: ArithOp, x: i16, y: i16) -> i16 {
    let mut w = CodeWriter::new();
    push_all(&mut w, &[x, y]);
    w.translate_arithmetic(op);
    let m = run(&w);
    assert_eq!(m.sp(), 257);
    m.ram[256]
}

fn unary(op: ArithOp, y: i16) -> i16 {
    let mut w = CodeWriter::new();
    push_all(&mut w, &[y]);
    w.translate_arithmetic(op);
    let m = run(&w);
    assert_eq!(m.sp(), 257);
    m.ram[256]
}

#[test]
fn seven_plus_eight_is_fifteen() {
    let mut w = CodeWriter::new();
    w.translate_push(Segment::Constant, 7);
    w.translate_push(Segment::Constant, 8);
    assert_eq!(w.write_arithmetic("add".to_string()), Ok(()));
    let m = run(&w);
    assert_eq!(m.stack(), vec![15]);
}

#[test]
fn five_equals_five_is_true() {
    let mut w = CodeWriter::new();
    w.translate_push(Segment::Constant, 5);
    w.translate_push(Segment::Constant, 5);
    assert_eq!(w.write_arithmetic("eq".to_string()), Ok(()));
    let m = run(&w);
    assert_eq!(m.stack(), vec![-1]);
}

#[test]
fn arithmetic_results() {
    assert_eq!(binary(ArithOp::Add, 7, 8), 15);
    assert_eq!(binary(ArithOp::Add, 32767, 1), -32768);
    assert_eq!(binary(ArithOp::Sub, 7, 8), -1);
    assert_eq!(binary(ArithOp::Sub, 8, 7), 1);
    assert_eq!(binary(ArithOp::Sub, -32768, 1), 32767);
    assert_eq!(binary(ArithOp::And, 12, 10), 8);
    assert_eq!(binary(ArithOp::And, -1, 1234), 1234);
    assert_eq!(binary(ArithOp::Or, 12, 10), 14);
    assert_eq!(binary(ArithOp::Or, -32768, 1), -32767);
    assert_eq!(unary(ArithOp::Neg, 5), -5);
    assert_eq!(unary(ArithOp::Neg, 0), 0);
    assert_eq!(unary(ArithOp::Neg, -32768), -32768);
    assert_eq!(unary(ArithOp::Not, 0), -1);
    assert_eq!(unary(ArithOp::Not, -1), 0);
    assert_eq!(unary(ArithOp::Not, 5), -6);
}

#[test]
fn comparisons_leave_all_ones_or_all_zeros() {
    let values = [-32768i16, -2, -1, 0, 1, 2, 17, 32767];
    for x in values {
        for y in values {
            let diff = x.wrapping_sub(y);
            for (op, holds) in
                [(ArithOp::Eq, diff == 0), (ArithOp::Gt, diff > 0), (ArithOp::Lt, diff < 0)]
            {
                let result = binary(op, x, y);
                assert!(result == -1 || result == 0);
                assert_eq!(result == -1, holds, "{:?} on {} and {}", op, x, y);
            }
        }
    }
}

#[test]
fn comparison_examples() {
    assert_eq!(binary(ArithOp::Eq, 5, 5), -1);
    assert_eq!(binary(ArithOp::Eq, 5, 6), 0);
    assert_eq!(binary(ArithOp::Gt, 6, 5), -1);
    assert_eq!(binary(ArithOp::Gt, 5, 5), 0);
    assert_eq!(binary(ArithOp::Gt, 4, 5), 0);
    assert_eq!(binary(ArithOp::Lt, 4, 5), -1);
    assert_eq!(binary(ArithOp::Lt, 5, 5), 0);
    assert_eq!(binary(ArithOp::Lt, 6, 5), 0);
}

#[test]
fn comparisons_in_a_row_land_where_they_should() {
    let mut w = CodeWriter::new();
    w.translate_push(Segment::Constant, 3);
    w.translate_push(Segment::Constant, 4);
    w.translate_arithmetic(ArithOp::Lt);
    w.translate_push(Segment::Constant, 9);
    w.translate_push(Segment::Constant, 2);
    w.translate_arithmetic(ArithOp::Gt);
    w.translate_arithmetic(ArithOp::Eq);
    w.translate_push(Segment::Constant, 1);
    w.translate_push(Segment::Constant, 1);
    w.translate_arithmetic(ArithOp::Lt);
    let m = run(&w);
    assert_eq!(m.stack(), vec![-1, 0]);
}

#[test]
fn stack_depth_follows_the_commands() {
    let mut w = CodeWriter::new();
    w.set_filename("Depth".to_string());
    let mut depth = 0usize;
    let mut checks: Vec<(usize, usize)> = Vec::new();
    for step in 0..40 {
        match step % 8 {
            0 | 1 | 2 => {
                w.translate_push(Segment::Constant, step);
                depth += 1;
            }
            3 => {
                w.translate_arithmetic(ArithOp::Add);
                depth -= 1;
            }
            4 => {
                w.translate_arithmetic(ArithOp::Neg);
            }
            5 => {
                w.translate_push(Segment::Temp, 2);
                depth += 1;
            }
            6 => {
                w.translate_arithmetic(ArithOp::Gt);
                depth -= 1;
            }
            _ => {
                assert_eq!(w.translate_pop(Segment::Static, 1), Ok(()));
                depth -= 1;
            }
        }
        checks.push((w.instruction_count(), depth));
    }
    let mut m = Machine::assemble(&w.lines());
    m.ram[0] = 256;
    for (position, depth) in checks {
        m.run_to(position);
        assert_eq!(m.sp(), 256 + depth);
    }
}

#[test]
fn push_and_pop_reach_their_segments() {
    let mut w = CodeWriter::new();
    w.set_filename("Seg".to_string());
    let segments = [
        (Segment::Local, 2),
        (Segment::Argument, 1),
        (Segment::This, 3),
        (Segment::That, 0),
        (Segment::Pointer, 1),
        (Segment::Temp, 6),
        (Segment::Static, 4),
    ];
    let mut value = 100;
    for (segment, index) in segments {
        w.translate_push(Segment::Constant, value);
        assert_eq!(w.translate_pop(segment, index), Ok(()));
        value += 1;
    }
    let after_pops = w.instruction_count();
    for (segment, index) in segments {
        w.translate_push(segment, index);
    }
    let mut m = Machine::assemble(&w.lines());
    m.ram[0] = 256;
    m.ram[1] = 300;
    m.ram[2] = 400;
    m.ram[3] = 3000;
    m.ram[4] = 3010;
    m.run_to(after_pops);
    assert_eq!(m.sp(), 256);
    assert_eq!(m.ram[302], 100);
    assert_eq!(m.ram[401], 101);
    assert_eq!(m.ram[3003], 102);
    assert_eq!(m.ram[3010], 103);
    assert_eq!(m.ram[4], 104);
    assert_eq!(m.ram[11], 105);
    assert_eq!(m.ram[16], 106);
    m.run_to(w.instruction_count());
    // `that` is read through the pointer that the pop into `pointer 1`
    // has moved to 104.
    assert_eq!(m.stack(), vec![100, 101, 102, m.ram[104], 104, 105, 106]);
}

#[test]
fn goto_and_if_goto_land_on_their_labels() {
    // Sum the numbers from 4 down to 1 in `temp 0`.
    let mut w = CodeWriter::new();
    w.write_function("Loop.sum".to_string(), 1);
    w.translate_push(Segment::Constant, 4);
    assert_eq!(w.translate_pop(Segment::Local, 0), Ok(()));
    w.translate_push(Segment::Constant, 0);
    assert_eq!(w.translate_pop(Segment::Temp, 0), Ok(()));
    w.write_label("AGAIN".to_string());
    w.translate_push(Segment::Local, 0);
    w.write_if("BODY".to_string());
    w.write_goto("DONE".to_string());
    w.write_label("BODY".to_string());
    w.translate_push(Segment::Temp, 0);
    w.translate_push(Segment::Local, 0);
    w.translate_arithmetic(ArithOp::Add);
    assert_eq!(w.translate_pop(Segment::Temp, 0), Ok(()));
    w.translate_push(Segment::Local, 0);
    w.translate_push(Segment::Constant, 1);
    w.translate_arithmetic(ArithOp::Sub);
    assert_eq!(w.translate_pop(Segment::Local, 0), Ok(()));
    w.write_goto("AGAIN".to_string());
    w.write_label("DONE".to_string());
    let mut m = Machine::assemble(&w.lines());
    m.ram[0] = 256;
    m.ram[1] = 256;
    m.run_to(w.instruction_count());
    assert_eq!(m.ram[5], 10);
    assert_eq!(m.sp(), 257);
    assert_eq!(m.ram[256], 0);
}

#[test]
fn if_goto_jumps_on_any_value_but_zero() {
    for (value, jumps) in [(0, false), (1, true), (7, true), (32767, true)] {
        let mut w = CodeWriter::new();
        w.translate_push(Segment::Constant, value);
        w.write_if("SKIP".to_string());
        w.translate_push(Segment::Constant, 11);
        w.write_label("SKIP".to_string());
        let m = run(&w);
        assert_eq!(m.stack().is_empty(), jumps);
    }
    let mut w = CodeWriter::new();
    w.translate_push(Segment::Constant, 0);
    w.translate_arithmetic(ArithOp::Not);
    w.write_if("SKIP".to_string());
    w.translate_push(Segment::Constant, 11);
    w.write_label("SKIP".to_string());
    let m = run(&w);
    assert!(m.stack().is_empty());
}

#[test]
fn function_clears_its_locals() {
    for locals in [0i16, 1, 2, 5] {
        let mut w = CodeWriter::new();
        w.write_function("F.f".to_string(), locals);
        let mut m = Machine::assemble(&w.lines());
        m.ram[0] = 256;
        for cell in 256..270 {
            m.ram[cell] = 99;
        }
        m.run_to(w.instruction_count());
        assert_eq!(m.sp(), 256 + locals as usize);
        assert_eq!(m.stack(), vec![0; locals as usize]);
        assert_eq!(m.ram[256 + locals as usize], 99);
    }
}

#[test]
fn call_places_arguments_and_return_restores_the_caller() {
    let mut w = CodeWriter::new();
    w.write_function("Mult.mult".to_string(), 2);
    // The callee copies its two arguments into its two locals, and
    // returns argument 0 minus argument 1.
    w.translate_push(Segment::Argument, 0);
    assert_eq!(w.translate_pop(Segment::Local, 0), Ok(()));
    w.translate_push(Segment::Argument, 1);
    assert_eq!(w.translate_pop(Segment::Local, 1), Ok(()));
    w.translate_push(Segment::Local, 0);
    w.translate_push(Segment::Local, 1);
    w.translate_arithmetic(ArithOp::Sub);
    let inside = w.instruction_count();
    w.write_return();
    let start = w.instruction_count();
    w.translate_push(Segment::Constant, 1000);
    w.translate_push(Segment::Constant, 30);
    w.translate_push(Segment::Constant, 12);
    w.write_call("Mult.mult".to_string(), 2);
    let mut m = Machine::assemble(&w.lines());
    m.pc = start;
    m.ram[0] = 256;
    m.ram[1] = 1111;
    m.ram[2] = 2222;
    m.ram[3] = 3333;
    m.ram[4] = 4444;
    m.run_to(inside);
    // The two pushed arguments stand at the callee's argument base.
    assert_eq!(m.ram[2], 257);
    assert_eq!(m.ram[m.ram[2] as usize], 30);
    assert_eq!(m.ram[m.ram[2] as usize + 1], 12);
    // Above them the frame: return address and the caller's pointers.
    assert_eq!(m.ram[259] as usize, m.label("Return.0"));
    assert_eq!(m.ram[260..264].to_vec(), vec![1111, 2222, 3333, 4444]);
    assert_eq!(m.ram[1], 264);
    assert_eq!(m.ram[264..266].to_vec(), vec![30, 12]);
    m.run_to(w.instruction_count());
    assert_eq!(m.pc, m.label("Return.0"));
    assert_eq!(m.ram[1..5].to_vec(), vec![1111, 2222, 3333, 4444]);
    assert_eq!(m.stack(), vec![1000, 18]);
}

#[test]
fn nested_calls_of_one_function_return_to_their_own_sites() {
    // f(n) = n if n is 0, else f(n - 1) + n; called for 3 from the top.
    let mut w = CodeWriter::new();
    w.write_function("Sum.to".to_string(), 0);
    w.translate_push(Segment::Argument, 0);
    w.write_if("MORE".to_string());
    w.translate_push(Segment::Constant, 0);
    w.write_return();
    w.write_label("MORE".to_string());
    w.translate_push(Segment::Argument, 0);
    w.translate_push(Segment::Constant, 1);
    w.translate_arithmetic(ArithOp::Sub);
    w.write_call("Sum.to".to_string(), 1);
    w.translate_push(Segment::Argument, 0);
    w.translate_arithmetic(ArithOp::Add);
    w.write_return();
    let start = w.instruction_count();
    w.translate_push(Segment::Constant, 3);
    w.write_call("Sum.to".to_string(), 1);
    assert_eq!(w.call_sites(), 2);
    let lines = w.lines();
    assert!(lines.contains(&"(Return.0)".to_string()));
    assert!(lines.contains(&"(Return.1)".to_string()));
    let mut m = Machine::assemble(&lines);
    m.pc = start;
    m.ram[0] = 256;
    m.ram[1] = 11;
    m.ram[2] = 22;
    m.ram[3] = 33;
    m.ram[4] = 44;
    m.run_to(w.instruction_count());
    assert_eq!(m.stack(), vec![6]);
    assert_eq!(m.ram[1..5].to_vec(), vec![11, 22, 33, 44]);
    assert_ne!(m.label("Return.0"), m.label("Return.1"));
}

#[test]
fn call_without_arguments_returns_a_value() {
    let mut w = CodeWriter::new();
    w.write_function("Const.get".to_string(), 3);
    w.translate_push(Segment::Constant, 77);
    w.write_return();
    let start = w.instruction_count();
    w.translate_push(Segment::Constant, 5);
    w.write_call("Const.get".to_string(), 0);
    let mut m = Machine::assemble(&w.lines());
    m.pc = start;
    m.ram[0] = 256;
    m.run_to(w.instruction_count());
    assert_eq!(m.stack(), vec![5, 77]);
}

#[test]
fn statics_of_two_files_are_two_cells() {
    let mut w = CodeWriter::new();
    w.set_filename("One".to_string());
    w.write_function("One.set".to_string(), 0);
    w.translate_push(Segment::Constant, 1);
    assert_eq!(w.translate_pop(Segment::Static, 0), Ok(()));
    w.set_filename("Two".to_string());
    w.write_function("Two.set".to_string(), 0);
    w.translate_push(Segment::Constant, 2);
    assert_eq!(w.translate_pop(Segment::Static, 0), Ok(()));
    w.set_filename("One".to_string());
    w.write_function("One.get".to_string(), 0);
    w.translate_push(Segment::Static, 0);
    w.set_filename("Two".to_string());
    w.write_function("Two.get".to_string(), 0);
    w.translate_push(Segment::Static, 0);
    let mut m = run(&w);
    assert_eq!(m.stack(), vec![1, 2]);
    let one = m.address_of("One.0");
    let two = m.address_of("Two.0");
    assert_ne!(one, two);
}

fn file(stem: &str, lines: &[&str]) -> SourceFile {
    SourceFile { stem: stem.to_string(), lines: lines.iter().map(|s| s.to_string()).collect() }
}

#[test]
fn bootstrap_runs_sys_init() {
    let files = vec![file("Sys", &["function Sys.init 0", "push constant 42", "return"])];
    let lines = translate_program(&files).unwrap();
    let mut m = Machine::assemble(&lines);
    // Run from the first instruction until control is back from
    // `Sys.init`, at the return address of the start-up call, with the
    // frame of the call taken off the stack again.
    let back = m.label("Return.0");
    m.run_to_depth(back, 1);
    assert_eq!(m.stack(), vec![42]);
}

#[test]
fn program_ends_in_a_jump_to_itself() {
    let files = vec![file(
        "Sys",
        &["function Sys.init 0", "label HANG", "goto HANG"],
    )];
    let lines = translate_program(&files).unwrap();
    let mut m = Machine::assemble(&lines);
    let last = m.rom.len() - 2;
    assert_eq!(lines[lines.len() - 2], format!("@{}", last));
    m.pc = last;
    m.ram[0] = 256;
    for _ in 0..10 {
        m.step();
        m.step();
        assert_eq!(m.pc, last);
    }
    assert_eq!(m.sp(), 256);
}

#[test]
fn program_of_two_files() {
    let files = vec![
        file(
            "Main",
            &[
                "// computes 3 * 4 by repeated addition",
                "function Main.run 0",
                "   push constant 3",
                "   push constant 4",
                "   call Math.times 2   // the product",
                "   return",
            ],
        ),
        file(
            "Math",
            &[
                "function Math.times 1",
                "label LOOP",
                "push argument 1",
                "if-goto MORE",
                "push local 0",
                "return",
                "label MORE",
                "push local 0",
                "push argument 0",
                "add",
                "pop local 0",
                "push argument 1",
                "push constant 1",
                "sub",
                "pop argument 1",
                "goto LOOP",
            ],
        ),
        file("Sys", &["function Sys.init 0", "call Main.run 0", "return"]),
    ];
    let lines = translate_program(&files).unwrap();
    let mut m = Machine::assemble(&lines);
    let back = m.label("Return.0");
    m.run_to_depth(back, 1);
    assert_eq!(m.stack(), vec![12]);
}
