//! The code generator: it takes the commands of the source language one at
//! a time and appends their translation to the target program, counting the
//! instructions written so that jumps inside a translation can name the
//! absolute position of their target.

use vstd::prelude::*;
use crate::blocks;
use crate::command::{ArithOp, Direction, Segment, TranslateError};
use crate::instruction::{Comp, Dest, Instr, Jump, Op, Reg};
use crate::text::push_decimal;

verus! {

/// The instructions among the lines of a program: what remains when the
/// label markers are taken out. The position of an instruction in this
/// sequence is its address in the program memory.
pub open spec fn code(lines: Seq<Op>) -> Seq<Op>
    decreases lines.len(),
{
    if lines.len() == 0 {
        Seq::<Op>::empty()
    } else if lines.last().is_label() {
        code(lines.drop_last())
    } else {
        code(lines.drop_last()).push(lines.last())
    }
}

/// The instructions of two runs of lines, one after the other, are the
/// instructions of the first followed by those of the second.
pub proof fn lemma_code_concat(a: Seq<Op>, b: Seq<Op>)
    ensures
        code(a + b) == code(a) + code(b),
    decreases b.len(),
{
    if b.len() == 0 {
        assert(a + b =~= a);
        assert(code(a) + code(b) =~= code(a));
    } else {
        lemma_code_concat(a, b.drop_last());
        assert((a + b).drop_last() =~= a + b.drop_last());
        assert((a + b).last() == b.last());
        if b.last().is_label() {
        } else {
            assert(code(a) + code(b.drop_last()).push(b.last()) =~= (code(a) + code(
                b.drop_last(),
            )).push(b.last()));
        }
    }
}

/// A single line is an instruction unless it is a label.
pub proof fn lemma_code_single(op: Op)
    ensures
        code(seq![op]) == if op.is_label() {
            Seq::<Op>::empty()
        } else {
            seq![op]
        },
{
    assert(seq![op].drop_last() =~= Seq::<Op>::empty());
    assert(code(seq![op].drop_last()) =~= Seq::<Op>::empty());
    assert(Seq::<Op>::empty().push(op) =~= seq![op]);
}

/// A run of lines without a label consists of instructions only.
pub proof fn lemma_code_without_labels(lines: Seq<Op>)
    requires
        forall|i: int| 0 <= i < lines.len() ==> !(#[trigger] lines[i]).is_label(),
    ensures
        code(lines) == lines,
    decreases lines.len(),
{
    if lines.len() > 0 {
        lemma_code_without_labels(lines.drop_last());
        assert(lines.drop_last().push(lines.last()) =~= lines);
    } else {
        assert(lines =~= Seq::<Op>::empty());
    }
}

/// There are no more instructions than lines.
pub proof fn lemma_code_bounded(lines: Seq<Op>)
    ensures
        code(lines).len() <= lines.len(),
    decreases lines.len(),
{
    if lines.len() > 0 {
        lemma_code_bounded(lines.drop_last());
    }
}

/// Replacing an instruction by another instruction keeps the number of
/// instructions.
pub proof fn lemma_code_update(lines: Seq<Op>, i: int, op: Op)
    requires
        0 <= i < lines.len(),
        !lines[i].is_label(),
        !op.is_label(),
    ensures
        code(lines.update(i, op)).len() == code(lines).len(),
    decreases lines.len(),
{
    let updated = lines.update(i, op);
    if i == lines.len() - 1 {
        assert(updated.drop_last() =~= lines.drop_last());
    } else {
        lemma_code_update(lines.drop_last(), i, op);
        assert(updated.drop_last() =~= lines.drop_last().update(i, op));
    }
}

/// The state of a code generator as a mathematical value.
pub struct State {
    /// The lines written so far, labels included, in the order written.
    pub lines: Seq<Op>,
    /// The name of the source file being translated, without its
    /// extension. It qualifies the cells of the `static` segment.
    pub file: Seq<char>,
    /// The function being translated, if any. It qualifies labels.
    pub function: Option<Seq<char>>,
    /// The number of call sites translated so far. It numbers the return
    /// addresses.
    pub calls: nat,
}

impl State {
    /// The number of instructions written so far, which is the address
    /// that the next instruction will have.
    pub open spec fn count(self) -> int {
        code(self.lines).len() as int
    }

    /// The state after writing the lines of `block`.
    pub open spec fn append(self, block: Seq<Op>) -> State {
        State { lines: self.lines + block, ..self }
    }

    /// The state at the start of a translation.
    pub open spec fn initial() -> State {
        State { lines: Seq::<Op>::empty(), file: Seq::<char>::empty(), function: None, calls: 0 }
    }

    /// The state after turning to the source file named `file`.
    pub open spec fn with_file(self, file: Seq<char>) -> State {
        State { file, ..self }
    }

    /// The state after translating an arithmetic command.
    pub open spec fn arithmetic(self, op: ArithOp) -> State {
        self.append(blocks::arithmetic(op, self.count()))
    }

    /// The state after translating `push segment index`.
    pub open spec fn push(self, segment: Segment, index: int) -> State {
        self.append(blocks::push(segment, index, self.file))
    }

    /// Whether `pop` has a translation for the segment.
    pub open spec fn can_pop(segment: Segment) -> bool {
        segment != Segment::Constant
    }

    /// The state after translating `pop segment index`, where
    /// `can_pop(segment)`.
    pub open spec fn pop(self, segment: Segment, index: int) -> State {
        self.append(blocks::pop(segment, index, self.file)->0)
    }

    /// The state after translating `label name`.
    pub open spec fn label(self, name: Seq<char>) -> State {
        self.append(blocks::label(self.function, name))
    }

    /// The state after translating `goto name`.
    pub open spec fn goto(self, name: Seq<char>) -> State {
        self.append(blocks::goto(self.function, name))
    }

    /// The state after translating `if-goto name`.
    pub open spec fn if_goto(self, name: Seq<char>) -> State {
        self.append(blocks::if_goto(self.function, name))
    }

    /// The state after translating `call name args`: the call site takes
    /// the next free number.
    pub open spec fn call(self, name: Seq<char>, args: int) -> State {
        State { calls: self.calls + 1, ..self.append(blocks::call(name, args, self.calls)) }
    }

    /// The state after translating `function name locals`: the function
    /// becomes the current one.
    pub open spec fn function(self, name: Seq<char>, locals: int) -> State {
        State {
            function: Some(name),
            ..self.append(blocks::function(name, locals, self.count()))
        }
    }

    /// The state after translating `return`.
    pub open spec fn ret(self) -> State {
        self.append(blocks::ret())
    }

    /// The state after writing the start-up sequence.
    pub open spec fn bootstrap(self) -> State {
        State { calls: self.calls + 1, ..self.append(blocks::bootstrap(self.calls)) }
    }

    /// The state after writing the final sequence.
    pub open spec fn halt(self) -> State {
        self.append(blocks::halt(self.count()))
    }
}

/// The lines of a program as mathematical values.
pub open spec fn ops_of(lines: Seq<Instr>) -> Seq<Op> {
    Seq::new(lines.len(), |i: int| lines[i]@)
}

/// A code generator.
pub struct CodeWriter {
    out: Vec<Instr>,
    filename: String,
    function_name: Option<String>,
    line_count: usize,
    call_count: usize,
}

impl View for CodeWriter {
    type V = State;

    closed spec fn view(&self) -> State {
        State {
            lines: ops_of(self.out@),
            file: self.filename@,
            function: match self.function_name {
                Some(f) => Some(f@),
                None => None,
            },
            calls: self.call_count as nat,
        }
    }
}

impl CodeWriter {
    /// The invariant of a code generator: its running count is the number
    /// of instructions written, and no more call sites were numbered than
    /// instructions written.
    pub closed spec fn wf(&self) -> bool {
        &&& self.line_count == self@.count()
        &&& self.call_count <= self.line_count
    }

    /// A generator that has written nothing yet.
    pub fn new() -> (w: CodeWriter)
        ensures
            w.wf(),
            w@ == State::initial(),
    {
        let w = CodeWriter {
            out: Vec::new(),
            filename: String::new(),
            function_name: None,
            line_count: 0,
            call_count: 0,
        };
        assert(w@.lines =~= Seq::<Op>::empty());
        w
    }

    /// Turns to a new source file: from now on the cells of the `static`
    /// segment are those of `filename`.
    pub fn set_filename(&mut self, filename: String)
        requires
            old(self).wf(),
        ensures
            final(self).wf(),
            final(self)@ == old(self)@.with_file(filename@),
    {
        self.filename = filename;
    }

    /// The number of instructions written so far.
    pub fn instruction_count(&self) -> (n: usize)
        requires
            self.wf(),
        ensures
            n == self@.count(),
    {
        self.line_count
    }

    /// The number of call sites translated so far.
    pub fn call_sites(&self) -> (n: usize)
        ensures
            n == self@.calls,
    {
        self.call_count
    }

    /// The lines written so far.
    pub fn instructions(&self) -> (lines: &Vec<Instr>)
        ensures
            ops_of(lines@) == self@.lines,
    {
        &self.out
    }

    /// Writes one line.
    fn emit(&mut self, instr: Instr)
        requires
            old(self).wf(),
        ensures
            final(self).wf(),
            final(self)@ == old(self)@.append(seq![instr@]),
            final(self).out@.len() == old(self).out@.len() + 1,
            final(self).line_count == old(self).line_count + if instr@.is_label() {
                0int
            } else {
                1int
            },
    {
        let counted = !instr.is_label();
        proof {
            lemma_code_bounded(self@.lines);
            lemma_code_concat(self@.lines, seq![instr@]);
            lemma_code_single(instr@);
        }
        self.out.push(instr);
        assert(self.out.len() == old(self).out@.len() + 1);
        if counted {
            self.line_count = self.line_count + 1;
        }
        assert(final(self)@.lines =~= old(self)@.lines + seq![instr@]);
    }

    /// Replaces the number of the address load that stands at line `line`.
    /// A jump forward is written with a number to be replaced, and gets its
    /// target once the count has reached it: no position is computed ahead
    /// of the instructions that lead to it.
    fn set_target(&mut self, line: usize, target: usize)
        requires
            old(self).wf(),
            line < old(self)@.lines.len(),
            old(self)@.lines[line as int] is Literal,
        ensures
            final(self).wf(),
            final(self)@ == (State {
                lines: old(self)@.lines.update(line as int, Op::Literal(target as int)),
                ..old(self)@
            }),
            final(self).out@.len() == old(self).out@.len(),
            final(self).line_count == old(self).line_count,
    {
        proof {
            lemma_code_update(self@.lines, line as int, Op::Literal(target as int));
        }
        self.out.set(line, Instr::Literal(target));
        assert(final(self)@.lines =~= old(self)@.lines.update(
            line as int,
            Op::Literal(target as int),
        ));
    }

    /// Writes `@reg`.
    fn emit_at(&mut self, reg: Reg)
        requires
            old(self).wf(),
        ensures
            final(self).wf(),
            final(self)@ == old(self)@.append(seq![blocks::at(reg)]),
            final(self).out@.len() == old(self).out@.len() + 1,
            final(self).line_count == old(self).line_count + 1,
    {
        self.emit(Instr::Register(reg));
    }

    /// Writes `@n`.
    fn emit_literal(&mut self, n: usize)
        requires
            old(self).wf(),
        ensures
            final(self).wf(),
            final(self)@ == old(self)@.append(seq![Op::Literal(n as int)]),
            final(self).out@.len() == old(self).out@.len() + 1,
            final(self).line_count == old(self).line_count + 1,
    {
        self.emit(Instr::Literal(n));
    }

    /// Writes `dest=comp`.
    fn emit_set(&mut self, dest: Dest, comp: Comp)
        requires
            old(self).wf(),
        ensures
            final(self).wf(),
            final(self)@ == old(self)@.append(seq![blocks::set(dest, comp)]),
            final(self).out@.len() == old(self).out@.len() + 1,
            final(self).line_count == old(self).line_count + 1,
    {
        self.emit(Instr::Compute(dest, comp, Jump::Null));
    }

    /// Writes `comp;jump`.
    fn emit_branch(&mut self, comp: Comp, jump: Jump)
        requires
            old(self).wf(),
        ensures
            final(self).wf(),
            final(self)@ == old(self)@.append(seq![blocks::branch(comp, jump)]),
            final(self).out@.len() == old(self).out@.len() + 1,
            final(self).line_count == old(self).line_count + 1,
    {
        self.emit(Instr::Compute(Dest::Null, comp, jump));
    }

    /// Writes the push of the data register.
    fn emit_push_d(&mut self)
        requires
            old(self).wf(),
        ensures
            final(self).wf(),
            final(self)@ == old(self)@.append(blocks::push_d()),
            final(self).out@.len() == old(self).out@.len() + 5,
            final(self).line_count == old(self).line_count + 5,
    {
        self.emit_at(Reg::Sp);
        self.emit_set(Dest::A, Comp::M);
        self.emit_set(Dest::M, Comp::D);
        self.emit_at(Reg::Sp);
        self.emit_set(Dest::M, Comp::MPlusOne);
        assert(final(self)@.lines =~= old(self)@.lines + blocks::push_d());
    }

    /// Writes the pop into the data register.
    fn emit_pop_d(&mut self)
        requires
            old(self).wf(),
        ensures
            final(self).wf(),
            final(self)@ == old(self)@.append(blocks::pop_d()),
            final(self).out@.len() == old(self).out@.len() + 3,
            final(self).line_count == old(self).line_count + 3,
    {
        self.emit_at(Reg::Sp);
        self.emit_set(Dest::AM, Comp::MMinusOne);
        self.emit_set(Dest::D, Comp::M);
        assert(final(self)@.lines =~= old(self)@.lines + blocks::pop_d());
    }

    /// Writes a binary operation.
    fn emit_binary(&mut self, comp: Comp)
        requires
            old(self).wf(),
        ensures
            final(self).wf(),
            final(self)@ == old(self)@.append(blocks::binary(comp)),
    {
        self.emit_pop_d();
        self.emit_at(Reg::Sp);
        self.emit_set(Dest::AM, Comp::MMinusOne);
        self.emit_set(Dest::M, comp);
        self.emit_at(Reg::Sp);
        self.emit_set(Dest::M, Comp::MPlusOne);
        assert(final(self)@.lines =~= old(self)@.lines + blocks::binary(comp));
    }

    /// Writes the instructions that leave the difference of the two
    /// topmost values in the data register.
    fn emit_difference(&mut self)
        requires
            old(self).wf(),
        ensures
            final(self).wf(),
            final(self)@ == old(self)@.append(
                blocks::pop_d() + seq![
                    blocks::at(Reg::Sp),
                    blocks::set(Dest::AM, Comp::MMinusOne),
                    blocks::set(Dest::D, Comp::MMinusD),
                ],
            ),
            final(self).line_count == old(self).line_count + 6,
    {
        self.emit_pop_d();
        self.emit_at(Reg::Sp);
        self.emit_set(Dest::AM, Comp::MMinusOne);
        self.emit_set(Dest::D, Comp::MMinusD);
        assert(final(self)@.lines =~= old(self)@.lines + (blocks::pop_d() + seq![
            blocks::at(Reg::Sp),
            blocks::set(Dest::AM, Comp::MMinusOne),
            blocks::set(Dest::D, Comp::MMinusD),
        ]));
    }

    /// Writes the conditional jump of a comparison and the branch that is
    /// run where the relation does not hold. The targets of its two jumps
    /// are left to be set.
    fn emit_fails(&mut self, holds: Jump)
        requires
            old(self).wf(),
        ensures
            final(self).wf(),
            final(self)@ == old(self)@.append(
                seq![
                    Op::Literal(0),
                    blocks::branch(Comp::D, holds),
                    blocks::at(Reg::Sp),
                    blocks::set(Dest::A, Comp::M),
                    blocks::set(Dest::M, Comp::Zero),
                    Op::Literal(0),
                    blocks::branch(Comp::Zero, Jump::Jmp),
                ],
            ),
            final(self).line_count == old(self).line_count + 7,
    {
        self.emit_literal(0);
        self.emit_branch(Comp::D, holds);
        self.emit_at(Reg::Sp);
        self.emit_set(Dest::A, Comp::M);
        self.emit_set(Dest::M, Comp::Zero);
        self.emit_literal(0);
        self.emit_branch(Comp::Zero, Jump::Jmp);
        assert(final(self)@.lines =~= old(self)@.lines + seq![
            Op::Literal(0),
            blocks::branch(Comp::D, holds),
            blocks::at(Reg::Sp),
            blocks::set(Dest::A, Comp::M),
            blocks::set(Dest::M, Comp::Zero),
            Op::Literal(0),
            blocks::branch(Comp::Zero, Jump::Jmp),
        ]);
    }

    /// Writes the branch of a comparison that is run where the relation
    /// holds.
    fn emit_holds(&mut self)
        requires
            old(self).wf(),
        ensures
            final(self).wf(),
            final(self)@ == old(self)@.append(
                seq![
                    blocks::at(Reg::Sp),
                    blocks::set(Dest::A, Comp::M),
                    blocks::set(Dest::M, Comp::MinusOne),
                ],
            ),
            final(self).line_count == old(self).line_count + 3,
    {
        self.emit_at(Reg::Sp);
        self.emit_set(Dest::A, Comp::M);
        self.emit_set(Dest::M, Comp::MinusOne);
        assert(final(self)@.lines =~= old(self)@.lines + seq![
            blocks::at(Reg::Sp),
            blocks::set(Dest::A, Comp::M),
            blocks::set(Dest::M, Comp::MinusOne),
        ]);
    }

    /// Writes the advance of the stack pointer by one.
    fn emit_advance(&mut self)
        requires
            old(self).wf(),
        ensures
            final(self).wf(),
            final(self)@ == old(self)@.append(
                seq![blocks::at(Reg::Sp), blocks::set(Dest::M, Comp::MPlusOne)],
            ),
            final(self).line_count == old(self).line_count + 2,
    {
        self.emit_at(Reg::Sp);
        self.emit_set(Dest::M, Comp::MPlusOne);
        assert(final(self)@.lines =~= old(self)@.lines + seq![
            blocks::at(Reg::Sp),
            blocks::set(Dest::M, Comp::MPlusOne),
        ]);
    }

    /// Writes a comparison.
    fn emit_compare(&mut self, holds: Jump)
        requires
            old(self).wf(),
        ensures
            final(self).wf(),
            final(self)@ == old(self)@.append(blocks::compare(holds, old(self)@.count())),
    {
        self.emit_difference();
        let jump_if_holds = self.out.len();
        self.emit_fails(holds);
        assert(self@.lines.len() == jump_if_holds + 7);
        let jump_to_end = self.out.len() - 2;
        let holds_at = self.line_count;
        self.set_target(jump_if_holds, holds_at);
        self.emit_holds();
        let end_at = self.line_count;
        self.set_target(jump_to_end, end_at);
        self.emit_advance();
        assert(final(self)@.lines =~= old(self)@.lines + blocks::compare(
            holds,
            old(self)@.count(),
        ));
    }

    /// Translates an arithmetic command.
    pub fn translate_arithmetic(&mut self, op: ArithOp)
        requires
            old(self).wf(),
        ensures
            final(self).wf(),
            final(self)@ == old(self)@.arithmetic(op),
    {
        match op {
            ArithOp::Add => self.emit_binary(Comp::DPlusM),
            ArithOp::Sub => self.emit_binary(Comp::MMinusD),
            ArithOp::And => self.emit_binary(Comp::MAndD),
            ArithOp::Or => self.emit_binary(Comp::MOrD),
            ArithOp::Neg => {
                self.emit_at(Reg::Sp);
                self.emit_set(Dest::AM, Comp::MMinusOne);
                self.emit_set(Dest::D, Comp::NotM);
                self.emit_set(Dest::M, Comp::DPlusOne);
                self.emit_at(Reg::Sp);
                self.emit_set(Dest::M, Comp::MPlusOne);
                assert(final(self)@.lines =~= old(self)@.lines + blocks::negate());
            },
            ArithOp::Not => {
                self.emit_at(Reg::Sp);
                self.emit_set(Dest::AM, Comp::MMinusOne);
                self.emit_set(Dest::M, Comp::NotM);
                self.emit_at(Reg::Sp);
                self.emit_set(Dest::M, Comp::MPlusOne);
                assert(final(self)@.lines =~= old(self)@.lines + blocks::complement());
            },
            ArithOp::Eq => self.emit_compare(Jump::Jeq),
            ArithOp::Gt => self.emit_compare(Jump::Jgt),
            ArithOp::Lt => self.emit_compare(Jump::Jlt),
        }
    }

    /// Translates the arithmetic command that `command` names. A word that
    /// names none is refused, and nothing is written.
    pub fn write_arithmetic(&mut self, command: String) -> (r: Result<(), TranslateError>)
        requires
            old(self).wf(),
        ensures
            final(self).wf(),
            match ArithOp::of(command@) {
                Some(op) => r is Ok && final(self)@ == old(self)@.arithmetic(op),
                None => r == Err::<(), TranslateError>(TranslateError::MalformedCommand)
                    && final(self)@ == old(self)@,
            },
    {
        match ArithOp::parse(command.as_str()) {
            Some(op) => {
                self.translate_arithmetic(op);
                Ok(())
            },
            None => Err(TranslateError::MalformedCommand),
        }
    }

    /// The symbol of entry `index` of the current file's `static` segment.
    fn static_name(&self, index: usize) -> (name: String)
        ensures
            name@ == blocks::static_symbol(self@.file, index as nat),
    {
        let mut name = self.filename.clone();
        name.append(".");
        push_decimal(&mut name, index);
        name
    }

    /// Writes the load of the address of a cell that stands at a fixed
    /// place.
    fn emit_fixed_cell(&mut self, segment: Segment, index: usize)
        requires
            old(self).wf(),
            index <= i16::MAX,
            blocks::fixed_cell(segment, index as int, old(self)@.file) is Some,
        ensures
            final(self).wf(),
            final(self)@ == old(self)@.append(
                seq![blocks::fixed_cell(segment, index as int, old(self)@.file)->0],
            ),
    {
        match segment {
            Segment::Pointer => self.emit_literal(blocks::POINTER_BASE + index),
            Segment::Temp => self.emit_literal(blocks::TEMP_BASE + index),
            _ => {
                let name = self.static_name(index);
                self.emit(Instr::Symbol(name));
            },
        }
    }

    /// Translates `push segment index`.
    pub fn translate_push(&mut self, segment: Segment, index: i16)
        requires
            old(self).wf(),
            index >= 0,
        ensures
            final(self).wf(),
            final(self)@ == old(self)@.push(segment, index as int),
    {
        let n = index as usize;
        match segment {
            Segment::Constant => {
                self.emit_literal(n);
                self.emit_set(Dest::D, Comp::A);
            },
            Segment::Local | Segment::Argument | Segment::This | Segment::That => {
                let reg = match segment {
                    Segment::Local => Reg::Lcl,
                    Segment::Argument => Reg::Arg,
                    Segment::This => Reg::This,
                    _ => Reg::That,
                };
                self.emit_at(reg);
                self.emit_set(Dest::D, Comp::M);
                self.emit_literal(n);
                self.emit_set(Dest::A, Comp::DPlusA);
                self.emit_set(Dest::D, Comp::M);
            },
            _ => {
                self.emit_fixed_cell(segment, n);
                self.emit_set(Dest::D, Comp::M);
            },
        }
        self.emit_push_d();
        assert(final(self)@.lines =~= old(self)@.lines + blocks::push(
            segment,
            index as int,
            old(self)@.file,
        ));
    }

    /// Translates `pop segment index`. The segment `constant` cannot be
    /// written to: for it nothing is written, and the command is refused.
    pub fn translate_pop(&mut self, segment: Segment, index: i16) -> (r: Result<
        (),
        TranslateError,
    >)
        requires
            old(self).wf(),
            index >= 0,
        ensures
            final(self).wf(),
            State::can_pop(segment) ==> r is Ok && final(self)@ == old(self)@.pop(
                segment,
                index as int,
            ),
            !State::can_pop(segment) ==> r == Err::<(), TranslateError>(
                TranslateError::UnsupportedOperation,
            ) && final(self)@ == old(self)@,
    {
        let n = index as usize;
        match segment {
            Segment::Constant => {
                return Err(TranslateError::UnsupportedOperation);
            },
            Segment::Local | Segment::Argument | Segment::This | Segment::That => {
                let reg = match segment {
                    Segment::Local => Reg::Lcl,
                    Segment::Argument => Reg::Arg,
                    Segment::This => Reg::This,
                    _ => Reg::That,
                };
                self.emit_at(reg);
                self.emit_set(Dest::D, Comp::M);
                self.emit_literal(n);
                self.emit_set(Dest::D, Comp::DPlusA);
                self.emit_at(Reg::R13);
                self.emit_set(Dest::M, Comp::D);
                self.emit_pop_d();
                self.emit_at(Reg::R13);
                self.emit_set(Dest::A, Comp::M);
                self.emit_set(Dest::M, Comp::D);
            },
            _ => {
                self.emit_pop_d();
                self.emit_fixed_cell(segment, n);
                self.emit_set(Dest::M, Comp::D);
            },
        }
        assert(final(self)@.lines =~= old(self)@.lines + blocks::pop(
            segment,
            index as int,
            old(self)@.file,
        )->0);
        Ok(())
    }

    /// Translates a push or a pop, as `kind` says.
    pub fn translate_push_pop(&mut self, kind: Direction, segment: Segment, index: i16) -> (r:
        Result<(), TranslateError>)
        requires
            old(self).wf(),
            index >= 0,
        ensures
            final(self).wf(),
            kind == Direction::Push ==> r is Ok && final(self)@ == old(self)@.push(
                segment,
                index as int,
            ),
            kind == Direction::Pop && State::can_pop(segment) ==> r is Ok && final(self)@ == old(
                self,
            )@.pop(segment, index as int),
            kind == Direction::Pop && !State::can_pop(segment) ==> r == Err::<(), TranslateError>(
                TranslateError::UnsupportedOperation,
            ) && final(self)@ == old(self)@,
    {
        match kind {
            Direction::Push => {
                self.translate_push(segment, index);
                Ok(())
            },
            Direction::Pop => self.translate_pop(segment, index),
        }
    }

    /// What `write_push_pop` answers to the words `command` and `segment`:
    /// a word that is neither `push` nor `pop` makes the command malformed;
    /// a word that names no segment, and a pop into `constant`, make it
    /// unsupported.
    pub open spec fn push_pop_outcome(command: Seq<char>, segment: Seq<char>) -> Result<
        (Direction, Segment),
        TranslateError,
    > {
        match Direction::of(command) {
            None => Err(TranslateError::MalformedCommand),
            Some(kind) => match Segment::of(segment) {
                None => Err(TranslateError::UnsupportedOperation),
                Some(seg) => if kind == Direction::Pop && !State::can_pop(seg) {
                    Err(TranslateError::UnsupportedOperation)
                } else {
                    Ok((kind, seg))
                },
            },
        }
    }

    /// Translates the push or pop that the words `command` and `segment`
    /// name. Where they name none that can be translated, nothing is
    /// written.
    pub fn write_push_pop(&mut self, command: String, segment: String, index: i16) -> (r: Result<
        (),
        TranslateError,
    >)
        requires
            old(self).wf(),
            index >= 0,
        ensures
            final(self).wf(),
            match Self::push_pop_outcome(command@, segment@) {
                Ok((kind, seg)) => r is Ok && final(self)@ == if kind == Direction::Push {
                    old(self)@.push(seg, index as int)
                } else {
                    old(self)@.pop(seg, index as int)
                },
                Err(e) => r == Err::<(), TranslateError>(e) && final(self)@ == old(self)@,
            },
    {
        match Direction::parse(command.as_str()) {
            None => Err(TranslateError::MalformedCommand),
            Some(kind) => match Segment::parse(segment.as_str()) {
                None => Err(TranslateError::UnsupportedOperation),
                Some(seg) => self.translate_push_pop(kind, seg, index),
            },
        }
    }

    /// The symbol of the label `label` in the current function.
    fn scoped_name(&self, label: &str) -> (name: String)
        ensures
            name@ == blocks::scoped_label(self@.function, label@),
    {
        match &self.function_name {
            Some(f) => {
                let mut name = f.clone();
                name.append("$");
                name.append(label);
                name
            },
            None => String::from_str(label),
        }
    }

    /// The symbol of the return address of call site `site`.
    fn return_name(site: usize) -> (name: String)
        ensures
            name@ == blocks::return_symbol(site as nat),
    {
        let mut name = String::from_str("Return.");
        push_decimal(&mut name, site);
        name
    }

    /// Translates `label name`: writes the marker, and no instruction.
    pub fn write_label(&mut self, label: String)
        requires
            old(self).wf(),
        ensures
            final(self).wf(),
            final(self)@ == old(self)@.label(label@),
    {
        let name = self.scoped_name(label.as_str());
        self.emit(Instr::Label(name));
    }

    /// Translates `goto name`.
    pub fn write_goto(&mut self, label: String)
        requires
            old(self).wf(),
        ensures
            final(self).wf(),
            final(self)@ == old(self)@.goto(label@),
    {
        let name = self.scoped_name(label.as_str());
        self.emit(Instr::Symbol(name));
        self.emit_branch(Comp::Zero, Jump::Jmp);
        assert(final(self)@.lines =~= old(self)@.lines + blocks::goto(
            old(self)@.function,
            label@,
        ));
    }

    /// Translates `if-goto name`.
    pub fn write_if(&mut self, label: String)
        requires
            old(self).wf(),
        ensures
            final(self).wf(),
            final(self)@ == old(self)@.if_goto(label@),
    {
        self.emit_pop_d();
        let name = self.scoped_name(label.as_str());
        self.emit(Instr::Symbol(name));
        self.emit_branch(Comp::D, Jump::Jne);
        assert(final(self)@.lines =~= old(self)@.lines + blocks::if_goto(
            old(self)@.function,
            label@,
        ));
    }

    /// Writes the push of a named cell's contents.
    fn emit_save(&mut self, reg: Reg)
        requires
            old(self).wf(),
        ensures
            final(self).wf(),
            final(self)@ == old(self)@.append(blocks::save(reg)),
            final(self).line_count == old(self).line_count + 7,
    {
        self.emit_at(reg);
        self.emit_set(Dest::D, Comp::M);
        self.emit_push_d();
        assert(final(self)@.lines =~= old(self)@.lines + blocks::save(reg));
    }

    /// Writes the push of the return address of call site `site`.
    fn emit_push_return(&mut self, site: usize)
        requires
            old(self).wf(),
        ensures
            final(self).wf(),
            final(self)@ == old(self)@.append(blocks::push_return(site as nat)),
            final(self).line_count == old(self).line_count + 7,
    {
        self.emit(Instr::Symbol(Self::return_name(site)));
        self.emit_set(Dest::D, Comp::A);
        self.emit_push_d();
        assert(final(self)@.lines =~= old(self)@.lines + blocks::push_return(site as nat));
    }

    /// Writes the setting of the callee's argument and local bases.
    fn emit_reposition(&mut self, args: usize)
        requires
            old(self).wf(),
        ensures
            final(self).wf(),
            final(self)@ == old(self)@.append(blocks::reposition(args as int)),
            final(self).line_count == old(self).line_count + 12,
    {
        self.emit_at(Reg::Sp);
        self.emit_set(Dest::D, Comp::M);
        self.emit_literal(args);
        self.emit_set(Dest::D, Comp::DMinusA);
        self.emit_literal(blocks::FRAME_WORDS);
        self.emit_set(Dest::D, Comp::DMinusA);
        self.emit_at(Reg::Arg);
        self.emit_set(Dest::M, Comp::D);
        self.emit_at(Reg::Sp);
        self.emit_set(Dest::D, Comp::M);
        self.emit_at(Reg::Lcl);
        self.emit_set(Dest::M, Comp::D);
        assert(final(self)@.lines =~= old(self)@.lines + blocks::reposition(args as int));
    }

    /// Translates `call function_name num_args`.
    pub fn write_call(&mut self, function_name: String, num_args: i16)
        requires
            old(self).wf(),
            num_args >= 0,
        ensures
            final(self).wf(),
            final(self)@ == old(self)@.call(function_name@, num_args as int),
    {
        let site = self.call_count;
        let ghost name = function_name@;
        let ghost start = self@.lines;
        self.emit_push_return(site);
        self.emit_save(Reg::Lcl);
        self.emit_save(Reg::Arg);
        self.emit_save(Reg::This);
        self.emit_save(Reg::That);
        self.emit_reposition(num_args as usize);
        self.emit(Instr::Symbol(function_name));
        self.emit_branch(Comp::Zero, Jump::Jmp);
        self.emit(Instr::Label(Self::return_name(site)));
        self.call_count = self.call_count + 1;
        assert(final(self)@.lines =~= start + blocks::call(name, num_args as int, site as nat));
    }

    /// Translates `function function_name num_locals`.
    pub fn write_function(&mut self, function_name: String, num_locals: i16)
        requires
            old(self).wf(),
            num_locals >= 0,
        ensures
            final(self).wf(),
            final(self)@ == old(self)@.function(function_name@, num_locals as int),
    {
        self.emit(Instr::Label(function_name.clone()));
        self.function_name = Some(function_name);
        self.emit_literal(num_locals as usize);
        self.emit_set(Dest::D, Comp::A);
        let loop_at = self.line_count;
        let jump_to_end = self.out.len();
        self.emit_literal(0);
        self.emit_branch(Comp::D, Jump::Jeq);
        self.emit_at(Reg::Sp);
        self.emit_set(Dest::A, Comp::M);
        self.emit_set(Dest::M, Comp::Zero);
        self.emit_at(Reg::Sp);
        self.emit_set(Dest::M, Comp::MPlusOne);
        self.emit_set(Dest::D, Comp::DMinusOne);
        self.emit_literal(loop_at);
        self.emit_branch(Comp::Zero, Jump::Jmp);
        let end_at = self.line_count;
        self.set_target(jump_to_end, end_at);
        assert(final(self)@.lines =~= old(self)@.lines + blocks::function(
            function_name@,
            num_locals as int,
            old(self)@.count(),
        ));
    }

    /// Writes the load of a word saved in the frame into a named cell.
    fn emit_restore(&mut self, reg: Reg, back: usize)
        requires
            old(self).wf(),
        ensures
            final(self).wf(),
            final(self)@ == old(self)@.append(blocks::restore(reg, back as int)),
    {
        self.emit_at(Reg::R13);
        self.emit_set(Dest::D, Comp::M);
        self.emit_literal(back);
        self.emit_set(Dest::A, Comp::DMinusA);
        self.emit_set(Dest::D, Comp::M);
        self.emit_at(reg);
        self.emit_set(Dest::M, Comp::D);
        assert(final(self)@.lines =~= old(self)@.lines + blocks::restore(reg, back as int));
    }

    /// Translates `return`.
    pub fn write_return(&mut self)
        requires
            old(self).wf(),
        ensures
            final(self).wf(),
            final(self)@ == old(self)@.ret(),
    {
        self.emit_at(Reg::Lcl);
        self.emit_set(Dest::D, Comp::M);
        self.emit_at(Reg::R13);
        self.emit_set(Dest::M, Comp::D);
        assert(self@.lines =~= old(self)@.lines + blocks::keep_frame());
        self.emit_restore(Reg::R14, blocks::FRAME_WORDS);
        let ghost before_result = self@.lines;
        self.emit_pop_d();
        self.emit_at(Reg::Arg);
        self.emit_set(Dest::A, Comp::M);
        self.emit_set(Dest::M, Comp::D);
        self.emit_at(Reg::Arg);
        self.emit_set(Dest::D, Comp::M);
        self.emit_at(Reg::Sp);
        self.emit_set(Dest::M, Comp::DPlusOne);
        assert(self@.lines =~= before_result + blocks::place_result());
        self.emit_restore(Reg::That, 1);
        self.emit_restore(Reg::This, 2);
        self.emit_restore(Reg::Arg, 3);
        self.emit_restore(Reg::Lcl, 4);
        let ghost before_leave = self@.lines;
        self.emit_at(Reg::R14);
        self.emit_set(Dest::A, Comp::M);
        self.emit_branch(Comp::Zero, Jump::Jmp);
        assert(self@.lines =~= before_leave + blocks::leave());
        assert(final(self)@.lines =~= old(self)@.lines + blocks::ret());
    }

    /// Writes the start-up sequence: the stack pointer is set to the
    /// stack's origin, and the entry point is called without arguments.
    pub fn write_init(&mut self)
        requires
            old(self).wf(),
        ensures
            final(self).wf(),
            final(self)@ == old(self)@.bootstrap(),
    {
        self.emit_literal(blocks::STACK_ORIGIN);
        self.emit_set(Dest::D, Comp::A);
        self.emit_at(Reg::Sp);
        self.emit_set(Dest::M, Comp::D);
        assert(self@.lines =~= old(self)@.lines + blocks::set_stack_origin());
        self.write_call(String::from_str("Sys.init"), 0);
        assert(final(self)@.lines =~= old(self)@.lines + blocks::bootstrap(old(self)@.calls));
    }

    /// Writes the final sequence, which keeps the machine in place by
    /// jumping to itself.
    pub fn close(&mut self)
        requires
            old(self).wf(),
        ensures
            final(self).wf(),
            final(self)@ == old(self)@.halt(),
    {
        let here = self.line_count;
        self.emit_literal(here);
        self.emit_branch(Comp::Zero, Jump::Jmp);
        assert(final(self)@.lines =~= old(self)@.lines + blocks::halt(old(self)@.count()));
    }

    /// The text of the lines written so far, one string per line, in the
    /// order written.
    pub fn lines(&self) -> (text: Vec<String>)
        ensures
            text@.len() == self@.lines.len(),
            forall|i: int| 0 <= i < text@.len() ==> (#[trigger] text@[i])@ == self@.lines[i].text(),
    {
        let mut text: Vec<String> = Vec::new();
        let mut i: usize = 0;
        while i < self.out.len()
            invariant
                i <= self.out@.len(),
                text@.len() == i,
                forall|k: int| 0 <= k < i ==> (#[trigger] text@[k])@ == self.out@[k]@.text(),
            decreases self.out@.len() - i,
        {
            text.push(self.out[i].render());
            i += 1;
        }
        text
    }
}

} // verus!
