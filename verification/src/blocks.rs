//! The instruction sequence that each command of the source language is
//! translated to, as mathematical values.
//!
//! Where a sequence jumps to one of its own instructions, the jump target is
//! an absolute position in the program memory, so the sequence depends on
//! `base`, the position at which its first instruction stands.

use vstd::prelude::*;
use crate::command::{ArithOp, Segment};
use crate::instruction::{Comp, Dest, Jump, Op, Reg};
use crate::text::decimal;

verus! {

/// The address at which the stack begins.
pub const STACK_ORIGIN: usize = 256;

/// The highest address of the data memory, which is also the largest value
/// of a word.
pub const TOP_ADDRESS: usize = 32767;

/// The address of the first of the two cells that the `pointer` segment
/// consists of.
pub const POINTER_BASE: usize = 3;

/// The address of the first of the eight cells of the `temp` segment.
pub const TEMP_BASE: usize = 5;

/// The number of words that a call saves on the stack: the return address
/// and the caller's four segment pointers.
pub const FRAME_WORDS: usize = 5;

/// `@reg`
pub open spec fn at(reg: Reg) -> Op {
    Op::Register(reg)
}

/// `dest=comp`
pub open spec fn set(dest: Dest, comp: Comp) -> Op {
    Op::Compute(dest, comp, Jump::Null)
}

/// `comp;jump`
pub open spec fn branch(comp: Comp, jump: Jump) -> Op {
    Op::Compute(Dest::Null, comp, jump)
}

/// The symbol that marks the return address of the call site numbered `k`.
pub open spec fn return_symbol(k: nat) -> Seq<char> {
    "Return."@ + decimal(k)
}

/// The symbol of the cell that holds entry `index` of the `static` segment
/// of the source file named `file`.
pub open spec fn static_symbol(file: Seq<char>, index: nat) -> Seq<char> {
    file + "."@ + decimal(index)
}

/// The symbol of a label: inside a function the label's name is qualified
/// by the function's, outside it stands as it is.
pub open spec fn scoped_label(function: Option<Seq<char>>, label: Seq<char>) -> Seq<char> {
    match function {
        Some(f) => f + "$"@ + label,
        None => label,
    }
}

/// Store the data register on top of the stack and advance the stack
/// pointer.
pub open spec fn push_d() -> Seq<Op> {
    seq![
        at(Reg::Sp),
        set(Dest::A, Comp::M),
        set(Dest::M, Comp::D),
        at(Reg::Sp),
        set(Dest::M, Comp::MPlusOne),
    ]
}

/// Step the stack pointer back and load the value it then points at into
/// the data register.
pub open spec fn pop_d() -> Seq<Op> {
    seq![at(Reg::Sp), set(Dest::AM, Comp::MMinusOne), set(Dest::D, Comp::M)]
}

/// Step the stack pointer back, replace the value it then points at by the
/// value of `comp`, and advance the stack pointer again.
pub open spec fn combine(comp: Comp) -> Seq<Op> {
    seq![
        at(Reg::Sp),
        set(Dest::AM, Comp::MMinusOne),
        set(Dest::M, comp),
        at(Reg::Sp),
        set(Dest::M, Comp::MPlusOne),
    ]
}

/// Replace the two topmost values `x` (below) and `y` (on top) by the value
/// of `comp`, computed with `x` in the addressed cell and `y` in the data
/// register.
pub open spec fn binary(comp: Comp) -> Seq<Op> {
    pop_d() + combine(comp)
}

/// Replace the topmost value by its negation in two's complement.
pub open spec fn negate() -> Seq<Op> {
    seq![
        at(Reg::Sp),
        set(Dest::AM, Comp::MMinusOne),
        set(Dest::D, Comp::NotM),
        set(Dest::M, Comp::DPlusOne),
        at(Reg::Sp),
        set(Dest::M, Comp::MPlusOne),
    ]
}

/// Replace the topmost value by its bitwise complement.
pub open spec fn complement() -> Seq<Op> {
    seq![
        at(Reg::Sp),
        set(Dest::AM, Comp::MMinusOne),
        set(Dest::M, Comp::NotM),
        at(Reg::Sp),
        set(Dest::M, Comp::MPlusOne),
    ]
}

/// The position, relative to the start of a comparison, of the instructions
/// that write the truth value for "the relation holds".
pub const COMPARE_TRUE: usize = 13;

/// The position, relative to the start of a comparison, at which its two
/// branches meet again.
pub const COMPARE_END: usize = 16;

/// Replace the two topmost values `x` and `y` by -1 if `x - y` meets the
/// jump condition `holds`, and by 0 if not. Six instructions leave `x - y`
/// in the data register; a conditional jump passes over the five
/// instructions that write 0 and jump to the end; three instructions write
/// -1; two advance the stack pointer.
pub open spec fn compare(holds: Jump, base: int) -> Seq<Op> {
    pop_d() + seq![
        at(Reg::Sp),
        set(Dest::AM, Comp::MMinusOne),
        set(Dest::D, Comp::MMinusD),
        Op::Literal(base + COMPARE_TRUE),
        branch(Comp::D, holds),
        at(Reg::Sp),
        set(Dest::A, Comp::M),
        set(Dest::M, Comp::Zero),
        Op::Literal(base + COMPARE_END),
        branch(Comp::Zero, Jump::Jmp),
        at(Reg::Sp),
        set(Dest::A, Comp::M),
        set(Dest::M, Comp::MinusOne),
        at(Reg::Sp),
        set(Dest::M, Comp::MPlusOne),
    ]
}

/// The translation of an arithmetic command whose first instruction stands
/// at `base`.
pub open spec fn arithmetic(op: ArithOp, base: int) -> Seq<Op> {
    match op {
        ArithOp::Add => binary(Comp::DPlusM),
        ArithOp::Sub => binary(Comp::MMinusD),
        ArithOp::And => binary(Comp::MAndD),
        ArithOp::Or => binary(Comp::MOrD),
        ArithOp::Neg => negate(),
        ArithOp::Not => complement(),
        ArithOp::Eq => compare(Jump::Jeq, base),
        ArithOp::Gt => compare(Jump::Jgt, base),
        ArithOp::Lt => compare(Jump::Jlt, base),
    }
}

/// The named cell that holds the base address of a segment, for the four
/// segments that have one.
pub open spec fn base_register(segment: Segment) -> Option<Reg> {
    match segment {
        Segment::Local => Some(Reg::Lcl),
        Segment::Argument => Some(Reg::Arg),
        Segment::This => Some(Reg::This),
        Segment::That => Some(Reg::That),
        _ => None,
    }
}

/// The load of the address of entry `index` of a segment whose cells stand
/// at fixed places: `pointer`, `temp`, and `static` of the file `file`.
pub open spec fn fixed_cell(segment: Segment, index: int, file: Seq<char>) -> Option<Op> {
    match segment {
        Segment::Pointer => Some(Op::Literal(POINTER_BASE + index)),
        Segment::Temp => Some(Op::Literal(TEMP_BASE + index)),
        Segment::Static => Some(Op::Symbol(static_symbol(file, index as nat))),
        _ => None,
    }
}

/// Load entry `index` of a segment into the data register: for `constant`
/// the index itself, for a segment with a base register the cell at the
/// base plus the index, for the others the cell at its fixed place.
pub open spec fn fetch(segment: Segment, index: int, file: Seq<char>) -> Seq<Op> {
    if segment == Segment::Constant {
        seq![Op::Literal(index), set(Dest::D, Comp::A)]
    } else if base_register(segment) is Some {
        seq![
            at(base_register(segment)->0),
            set(Dest::D, Comp::M),
            Op::Literal(index),
            set(Dest::A, Comp::DPlusA),
            set(Dest::D, Comp::M),
        ]
    } else {
        seq![fixed_cell(segment, index, file)->0, set(Dest::D, Comp::M)]
    }
}

/// The translation of `push segment index` in the source file `file`.
pub open spec fn push(segment: Segment, index: int, file: Seq<char>) -> Seq<Op> {
    fetch(segment, index, file) + push_d()
}

/// The translation of `pop segment index` in the source file `file`, for
/// every segment but `constant`, which has none. Where the target address
/// is computed from a base register it is kept in the first scratch cell
/// while the value is taken off the stack.
pub open spec fn pop(segment: Segment, index: int, file: Seq<char>) -> Option<Seq<Op>> {
    if segment == Segment::Constant {
        None
    } else if base_register(segment) is Some {
        Some(
            seq![
                at(base_register(segment)->0),
                set(Dest::D, Comp::M),
                Op::Literal(index),
                set(Dest::D, Comp::DPlusA),
                at(Reg::R13),
                set(Dest::M, Comp::D),
            ] + pop_d() + seq![at(Reg::R13), set(Dest::A, Comp::M), set(Dest::M, Comp::D)],
        )
    } else {
        Some(pop_d() + seq![fixed_cell(segment, index, file)->0, set(Dest::M, Comp::D)])
    }
}

/// The translation of `label name` inside `function`: a marker, and no
/// instruction.
pub open spec fn label(function: Option<Seq<char>>, name: Seq<char>) -> Seq<Op> {
    seq![Op::Label(scoped_label(function, name))]
}

/// Jump to the address that `symbol` stands for.
pub open spec fn jump_to(symbol: Seq<char>) -> Seq<Op> {
    seq![Op::Symbol(symbol), branch(Comp::Zero, Jump::Jmp)]
}

/// The translation of `goto name` inside `function`.
pub open spec fn goto(function: Option<Seq<char>>, name: Seq<char>) -> Seq<Op> {
    jump_to(scoped_label(function, name))
}

/// The translation of `if-goto name` inside `function`: take the topmost
/// value off the stack and jump if it is not zero.
pub open spec fn if_goto(function: Option<Seq<char>>, name: Seq<char>) -> Seq<Op> {
    pop_d() + seq![Op::Symbol(scoped_label(function, name)), branch(Comp::D, Jump::Jne)]
}

/// Push the contents of a named cell.
pub open spec fn save(reg: Reg) -> Seq<Op> {
    seq![at(reg), set(Dest::D, Comp::M)] + push_d()
}

/// The number of instructions of a call.
pub const CALL_LENGTH: usize = 49;

/// Push the return address of call site `site`.
pub open spec fn push_return(site: nat) -> Seq<Op> {
    seq![Op::Symbol(return_symbol(site)), set(Dest::D, Comp::A)] + push_d()
}

/// Set the argument base to the stack pointer less `args` and the words of
/// the frame, and the local base to the stack pointer.
pub open spec fn reposition(args: int) -> Seq<Op> {
    seq![
        at(Reg::Sp),
        set(Dest::D, Comp::M),
        Op::Literal(args),
        set(Dest::D, Comp::DMinusA),
        Op::Literal(FRAME_WORDS as int),
        set(Dest::D, Comp::DMinusA),
        at(Reg::Arg),
        set(Dest::M, Comp::D),
        at(Reg::Sp),
        set(Dest::D, Comp::M),
        at(Reg::Lcl),
        set(Dest::M, Comp::D),
    ]
}

/// The instructions of a call: push the return address and the caller's
/// four segment pointers, set the argument base to the first of the `args`
/// values pushed before the call and the local base to the top of the
/// stack, and jump to the function.
pub open spec fn call_body(name: Seq<char>, args: int, site: nat) -> Seq<Op> {
    push_return(site) + save(Reg::Lcl) + save(Reg::Arg) + save(Reg::This) + save(Reg::That)
        + reposition(args) + jump_to(name)
}

/// The translation of `call name args` at the call site numbered `site`:
/// the instructions of the call, and behind them the marker of the return
/// address.
pub open spec fn call(name: Seq<char>, args: int, site: nat) -> Seq<Op> {
    call_body(name, args, site) + seq![Op::Label(return_symbol(site))]
}

/// The number of instructions of a function's entry sequence.
pub const FUNCTION_LENGTH: usize = 12;

/// The position, relative to the first instruction of a function's entry
/// sequence, of the head of the loop that clears the local variables.
pub const FUNCTION_LOOP: usize = 2;

/// The instructions at the entry of a function with `locals` local
/// variables, the first of them at `base`: a loop that pushes `locals`
/// zeros, counting down in the data register. The loop's head tests the
/// count and leaves for the end of the sequence when it is zero.
pub open spec fn function_body(locals: int, base: int) -> Seq<Op> {
    seq![
        Op::Literal(locals),
        set(Dest::D, Comp::A),
        Op::Literal(base + FUNCTION_LENGTH),
        branch(Comp::D, Jump::Jeq),
        at(Reg::Sp),
        set(Dest::A, Comp::M),
        set(Dest::M, Comp::Zero),
        at(Reg::Sp),
        set(Dest::M, Comp::MPlusOne),
        set(Dest::D, Comp::DMinusOne),
        Op::Literal(base + FUNCTION_LOOP),
        branch(Comp::Zero, Jump::Jmp),
    ]
}

/// The translation of `function name locals` whose first instruction stands
/// at `base`: the function's label, then the instructions that clear its
/// local variables.
pub open spec fn function(name: Seq<char>, locals: int, base: int) -> Seq<Op> {
    seq![Op::Label(name)] + function_body(locals, base)
}

/// Load into `reg` the word saved `back` cells below the frame whose base
/// the first scratch cell holds.
pub open spec fn restore(reg: Reg, back: int) -> Seq<Op> {
    seq![
        at(Reg::R13),
        set(Dest::D, Comp::M),
        Op::Literal(back),
        set(Dest::A, Comp::DMinusA),
        set(Dest::D, Comp::M),
        at(reg),
        set(Dest::M, Comp::D),
    ]
}

/// The number of instructions of a return.
pub const RETURN_LENGTH: usize = 52;

/// Keep the base of the frame, which is the local base, in the first
/// scratch cell.
pub open spec fn keep_frame() -> Seq<Op> {
    seq![at(Reg::Lcl), set(Dest::D, Comp::M), at(Reg::R13), set(Dest::M, Comp::D)]
}

/// Move the topmost value to the cell at the argument base and set the
/// stack pointer just above that cell.
pub open spec fn place_result() -> Seq<Op> {
    pop_d() + seq![
        at(Reg::Arg),
        set(Dest::A, Comp::M),
        set(Dest::M, Comp::D),
        at(Reg::Arg),
        set(Dest::D, Comp::M),
        at(Reg::Sp),
        set(Dest::M, Comp::DPlusOne),
    ]
}

/// Jump to the address that the second scratch cell holds.
pub open spec fn leave() -> Seq<Op> {
    seq![at(Reg::R14), set(Dest::A, Comp::M), branch(Comp::Zero, Jump::Jmp)]
}

/// The translation of `return`: keep the frame base in the first scratch
/// cell and the return address in the second, move the topmost value to the
/// base of the arguments, set the stack pointer just above it, restore the
/// caller's four segment pointers from the frame, highest first, and jump
/// to the return address.
pub open spec fn ret() -> Seq<Op> {
    keep_frame() + restore(Reg::R14, FRAME_WORDS as int) + place_result() + restore(Reg::That, 1)
        + restore(Reg::This, 2) + restore(Reg::Arg, 3) + restore(Reg::Lcl, 4) + leave()
}

/// The name of the function that the start-up sequence calls.
pub open spec fn entry_point() -> Seq<char> {
    "Sys.init"@
}

/// The four instructions that set the stack pointer to the stack's origin.
pub open spec fn set_stack_origin() -> Seq<Op> {
    seq![
        Op::Literal(STACK_ORIGIN as int),
        set(Dest::D, Comp::A),
        at(Reg::Sp),
        set(Dest::M, Comp::D),
    ]
}

/// The start-up sequence: set the stack pointer to the stack's origin and
/// call the entry point without arguments, as call site `site`.
pub open spec fn bootstrap(site: nat) -> Seq<Op> {
    set_stack_origin() + call(entry_point(), 0, site)
}

/// The final sequence, whose first instruction stands at `base`: a jump to
/// itself.
pub open spec fn halt(base: int) -> Seq<Op> {
    seq![Op::Literal(base), branch(Comp::Zero, Jump::Jmp)]
}

} // verus!
