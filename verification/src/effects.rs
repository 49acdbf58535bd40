//! What the translation of each command does when the target machine runs
//! it: the laws that tie the generated instructions to the meaning of the
//! source language.

use vstd::prelude::*;
use crate::blocks;
use crate::command::{ArithOp, Segment};
use crate::instruction::{Comp, Jump, Op};
use crate::machine::{lemma_placed_parts, lemma_run_split, placed, taken, Machine};
use crate::text::MAX_INDEX;
use crate::word::{
    bit_and, bit_not, bit_or, falsity, is_word, law_bitwise_words, law_wrap, truth, wrap,
};

verus! {

/// Whether the stack holds at least `holds` values and has room for `room`
/// more: the stack pointer is that far above the stack's origin and that
/// far below the end of the address space.
pub open spec fn stack_ok(m: Machine, holds: int, room: int) -> bool {
    blocks::STACK_ORIGIN + holds <= m.sp() && m.sp() + room <= blocks::TOP_ADDRESS
}

/// Pushing the data register stores it in the cell at the stack pointer
/// and advances the stack pointer by one.
pub proof fn lemma_push_d(m: Machine, rom: Seq<Op>, symbols: Map<Seq<char>, int>)
    requires
        placed(rom, m.pc, blocks::push_d()),
        stack_ok(m, 0, 1),
    ensures
        m.run(rom, symbols, 5) == (Machine {
            a: 0,
            d: m.d,
            pc: m.pc + 5,
            ram: m.ram.insert(m.sp(), m.d).insert(0, m.sp() + 1),
        }),
{
    reveal_with_fuel(Machine::run, 6);
}

/// Popping into the data register steps the stack pointer back by one and
/// loads the value that was on top.
pub proof fn lemma_pop_d(m: Machine, rom: Seq<Op>, symbols: Map<Seq<char>, int>)
    requires
        placed(rom, m.pc, blocks::pop_d()),
        stack_ok(m, 1, 0),
    ensures
        m.run(rom, symbols, 3) == (Machine {
            a: m.sp() - 1,
            d: m.top(),
            pc: m.pc + 3,
            ram: m.ram.insert(0, m.sp() - 1),
        }),
{
    reveal_with_fuel(Machine::run, 4);
}

/// The number of values that an arithmetic command takes from the stack.
pub open spec fn operands(op: ArithOp) -> int {
    if op.is_binary() {
        2
    } else {
        1
    }
}

/// The value that an arithmetic command leaves on the stack, where `y` was
/// the topmost value and `x` the one below it. Sums and differences wrap
/// around; a relational test looks at the wrapped difference `x - y` and
/// leaves the word for "true" or the word for "false".
pub open spec fn arith_result(op: ArithOp, x: int, y: int) -> int {
    match op {
        ArithOp::Add => wrap(x + y),
        ArithOp::Sub => wrap(x - y),
        ArithOp::Neg => wrap(-y),
        ArithOp::Eq => if wrap(x - y) == 0 {
            truth()
        } else {
            falsity()
        },
        ArithOp::Gt => if wrap(x - y) > 0 {
            truth()
        } else {
            falsity()
        },
        ArithOp::Lt => if wrap(x - y) < 0 {
            truth()
        } else {
            falsity()
        },
        ArithOp::And => bit_and(x, y),
        ArithOp::Or => bit_or(x, y),
        ArithOp::Not => bit_not(y),
    }
}

/// The number of instructions that the machine runs for an arithmetic
/// command. A relational test runs 13 where the relation holds and 15 where
/// it does not, since only one of its two branches is run.
pub open spec fn arith_steps(op: ArithOp, x: int, y: int) -> nat {
    match op {
        ArithOp::Add | ArithOp::Sub | ArithOp::And | ArithOp::Or => 8,
        ArithOp::Neg => 6,
        ArithOp::Not => 5,
        _ => if arith_result(op, x, y) == truth() {
            13
        } else {
            15
        },
    }
}

/// The memory after an arithmetic command has run from the memory `ram`:
/// the result lies where the lower operand was, or in place of the only
/// operand, and the stack pointer stands just above it.
pub open spec fn arith_ram(op: ArithOp, ram: Map<int, int>) -> Map<int, int> {
    let sp = ram[0];
    let result = arith_result(op, ram[sp - 2], ram[sp - 1]);
    if op.is_binary() {
        ram.insert(sp - 2, result).insert(0, sp - 1)
    } else {
        ram.insert(sp - 1, result).insert(0, sp)
    }
}

/// The state in which an arithmetic command, run from `m`, leaves the
/// machine: control stands behind the command's translation, the operands
/// are replaced by the result, and no other cell has changed.
pub open spec fn arith_effect(op: ArithOp, m: Machine, r: Machine) -> bool {
    let x = m.ram[m.sp() - 2];
    let y = m.ram[m.sp() - 1];
    &&& r.pc == m.pc + blocks::arithmetic(op, m.pc).len()
    &&& r.sp() == m.sp() - operands(op) + 1
    &&& r.top() == arith_result(op, x, y)
    &&& forall|k: int| k != 0 && k != r.sp() - 1 ==> r.ram[k] == m.ram[k]
}

/// A binary operation replaces the two topmost values by the value of its
/// computation, taken with the lower of them in the addressed cell and the
/// upper in the data register.
proof fn lemma_binary(comp: Comp, m: Machine, rom: Seq<Op>, symbols: Map<Seq<char>, int>)
    requires
        placed(rom, m.pc, blocks::binary(comp)),
        stack_ok(m, 2, 0),
    ensures
        ({
            let r = m.run(rom, symbols, 8);
            let v = (Machine { a: m.sp() - 2, d: m.top(), ..m }).value(comp);
            &&& r.pc == m.pc + 8
            &&& r.ram == m.ram.insert(0, m.sp() - 1).insert(0, m.sp() - 2).insert(
                m.sp() - 2,
                v,
            ).insert(0, m.sp() - 1)
        }),
{
    lemma_placed_parts(rom, m.pc, blocks::pop_d(), blocks::combine(comp));
    lemma_pop_d(m, rom, symbols);
    lemma_run_split(m, rom, symbols, 3, 5);
    let m3 = m.run(rom, symbols, 3);
    assert(m3.run(rom, symbols, 5).pc == m.pc + 8 && m3.run(rom, symbols, 5).ram == m.ram.insert(
        0,
        m.sp() - 1,
    ).insert(0, m.sp() - 2).insert(
        m.sp() - 2,
        (Machine { a: m.sp() - 2, d: m.top(), ..m }).value(comp),
    ).insert(0, m.sp() - 1)) by {
        reveal_with_fuel(Machine::run, 6);
    }
}

/// Negation replaces the topmost value by its negative.
proof fn lemma_negate(m: Machine, rom: Seq<Op>, symbols: Map<Seq<char>, int>)
    requires
        placed(rom, m.pc, blocks::negate()),
        stack_ok(m, 1, 0),
    ensures
        ({
            let r = m.run(rom, symbols, 6);
            &&& r.pc == m.pc + 6
            &&& r.ram == m.ram.insert(0, m.sp() - 1).insert(m.sp() - 1, wrap(-m.top())).insert(
                0,
                m.sp(),
            )
        }),
{
    reveal_with_fuel(Machine::run, 7);
    assert(wrap(bit_not(m.top()) + 1) == wrap(-m.top()));
}

/// Complementing replaces the topmost value by its bitwise complement.
proof fn lemma_complement(m: Machine, rom: Seq<Op>, symbols: Map<Seq<char>, int>)
    requires
        placed(rom, m.pc, blocks::complement()),
        stack_ok(m, 1, 0),
    ensures
        ({
            let r = m.run(rom, symbols, 5);
            &&& r.pc == m.pc + 5
            &&& r.ram == m.ram.insert(0, m.sp() - 1).insert(m.sp() - 1, bit_not(m.top())).insert(
                0,
                m.sp(),
            )
        }),
{
    reveal_with_fuel(Machine::run, 6);
}

/// The first six instructions of a comparison take both operands off the
/// stack and leave their wrapped difference in the data register.
proof fn lemma_compare_setup(
    holds: Jump,
    m: Machine,
    rom: Seq<Op>,
    symbols: Map<Seq<char>, int>,
)
    requires
        placed(rom, m.pc, blocks::compare(holds, m.pc)),
        stack_ok(m, 2, 0),
    ensures
        m.run(rom, symbols, 6) == (Machine {
            a: m.sp() - 2,
            d: wrap(m.ram[m.sp() - 2] - m.ram[m.sp() - 1]),
            pc: m.pc + 6,
            ram: m.ram.insert(0, m.sp() - 1).insert(0, m.sp() - 2),
        }),
{
    reveal_with_fuel(Machine::run, 7);
}

/// From the conditional jump on, a comparison whose relation holds writes
/// the word for "true" in seven instructions.
proof fn lemma_compare_true(
    holds: Jump,
    base: int,
    m: Machine,
    rom: Seq<Op>,
    symbols: Map<Seq<char>, int>,
)
    requires
        placed(rom, base, blocks::compare(holds, base)),
        m.pc == base + 6,
        taken(holds, m.d),
        stack_ok(m, 0, 1),
    ensures
        ({
            let r = m.run(rom, symbols, 7);
            &&& r.pc == base + 18
            &&& r.ram == m.ram.insert(m.sp(), truth()).insert(0, m.sp() + 1)
        }),
{
    reveal_with_fuel(Machine::run, 8);
}

/// From the conditional jump on, a comparison whose relation does not hold
/// writes the word for "false" in nine instructions.
proof fn lemma_compare_false(
    holds: Jump,
    base: int,
    m: Machine,
    rom: Seq<Op>,
    symbols: Map<Seq<char>, int>,
)
    requires
        placed(rom, base, blocks::compare(holds, base)),
        m.pc == base + 6,
        !taken(holds, m.d),
        stack_ok(m, 0, 1),
    ensures
        ({
            let r = m.run(rom, symbols, 9);
            &&& r.pc == base + 18
            &&& r.ram == m.ram.insert(m.sp(), falsity()).insert(0, m.sp() + 1)
        }),
{
    reveal_with_fuel(Machine::run, 10);
}

/// A comparison replaces the two topmost values by the word for "true" or
/// the word for "false", as the jump condition holds of their wrapped
/// difference or not, and control leaves it at its end on either way.
proof fn lemma_compare(holds: Jump, m: Machine, rom: Seq<Op>, symbols: Map<Seq<char>, int>)
    requires
        placed(rom, m.pc, blocks::compare(holds, m.pc)),
        stack_ok(m, 2, 0),
    ensures
        ({
            let diff = wrap(m.ram[m.sp() - 2] - m.ram[m.sp() - 1]);
            let n: nat = if taken(holds, diff) {
                13
            } else {
                15
            };
            let v = if taken(holds, diff) {
                truth()
            } else {
                falsity()
            };
            let r = m.run(rom, symbols, n);
            &&& r.pc == m.pc + 18
            &&& r.ram == m.ram.insert(0, m.sp() - 1).insert(0, m.sp() - 2).insert(
                m.sp() - 2,
                v,
            ).insert(0, m.sp() - 1)
        }),
{
    let diff = wrap(m.ram[m.sp() - 2] - m.ram[m.sp() - 1]);
    lemma_compare_setup(holds, m, rom, symbols);
    let m6 = m.run(rom, symbols, 6);
    if taken(holds, diff) {
        lemma_compare_true(holds, m.pc, m6, rom, symbols);
        lemma_run_split(m, rom, symbols, 6, 7);
    } else {
        lemma_compare_false(holds, m.pc, m6, rom, symbols);
        lemma_run_split(m, rom, symbols, 6, 9);
    }
}

/// Running the translation of an arithmetic command has the command's
/// effect on the stack: it takes one or two operands and leaves one result,
/// and a relational test leaves one of the two truth values.
pub proof fn law_arithmetic(op: ArithOp, m: Machine, rom: Seq<Op>, symbols: Map<Seq<char>, int>)
    requires
        placed(rom, m.pc, blocks::arithmetic(op, m.pc)),
        stack_ok(m, operands(op), 0),
    ensures
        arith_effect(
            op,
            m,
            m.run(rom, symbols, arith_steps(op, m.ram[m.sp() - 2], m.ram[m.sp() - 1])),
        ),
        m.run(rom, symbols, arith_steps(op, m.ram[m.sp() - 2], m.ram[m.sp() - 1])).ram
            == arith_ram(op, m.ram),
        op.is_comparison() ==> {
            let r = m.run(rom, symbols, arith_steps(op, m.ram[m.sp() - 2], m.ram[m.sp() - 1]));
            r.top() == truth() || r.top() == falsity()
        },
{
    match op {
        ArithOp::Add => lemma_binary(Comp::DPlusM, m, rom, symbols),
        ArithOp::Sub => lemma_binary(Comp::MMinusD, m, rom, symbols),
        ArithOp::And => lemma_binary(Comp::MAndD, m, rom, symbols),
        ArithOp::Or => lemma_binary(Comp::MOrD, m, rom, symbols),
        ArithOp::Neg => lemma_negate(m, rom, symbols),
        ArithOp::Not => lemma_complement(m, rom, symbols),
        ArithOp::Eq => lemma_compare(Jump::Jeq, m, rom, symbols),
        ArithOp::Gt => lemma_compare(Jump::Jgt, m, rom, symbols),
        ArithOp::Lt => lemma_compare(Jump::Jlt, m, rom, symbols),
    }
    let r = m.run(rom, symbols, arith_steps(op, m.ram[m.sp() - 2], m.ram[m.sp() - 1]));
    assert(r.ram =~= arith_ram(op, m.ram));
}

/// The address of entry `index` of a segment other than `constant`: for
/// the four segments with a base register, the base plus the index; for
/// `pointer` and `temp`, a fixed place; for `static`, the cell that the
/// symbol of the file's entry stands for.
pub open spec fn segment_address(
    m: Machine,
    symbols: Map<Seq<char>, int>,
    segment: Segment,
    index: int,
    file: Seq<char>,
) -> int {
    match blocks::base_register(segment) {
        Some(reg) => wrap(m.ram[reg.address()] + index),
        None => match segment {
            Segment::Pointer => blocks::POINTER_BASE + index,
            Segment::Temp => blocks::TEMP_BASE + index,
            _ => symbols[blocks::static_symbol(file, index as nat)],
        },
    }
}

/// The value that `push segment index` puts on the stack: the index itself
/// for `constant`, and the contents of the addressed cell for the others.
pub open spec fn pushed_value(
    m: Machine,
    symbols: Map<Seq<char>, int>,
    segment: Segment,
    index: int,
    file: Seq<char>,
) -> int {
    if segment == Segment::Constant {
        index
    } else {
        m.ram[segment_address(m, symbols, segment, index, file)]
    }
}

/// The first instructions of a push load the value to be pushed into the
/// data register and change no cell.
proof fn lemma_push_load(
    segment: Segment,
    index: int,
    file: Seq<char>,
    m: Machine,
    rom: Seq<Op>,
    symbols: Map<Seq<char>, int>,
)
    requires
        placed(rom, m.pc, blocks::push(segment, index, file)),
        0 <= index <= MAX_INDEX,
    ensures
        ({
            let n = blocks::push(segment, index, file).len() - 5;
            let r = m.run(rom, symbols, n as nat);
            &&& n == 2 || n == 5
            &&& r.pc == m.pc + n
            &&& r.d == pushed_value(m, symbols, segment, index, file)
            &&& r.ram == m.ram
            &&& placed(rom, r.pc, blocks::push_d())
        }),
{
    reveal_with_fuel(Machine::run, 6);
    lemma_placed_parts(rom, m.pc, blocks::fetch(segment, index, file), blocks::push_d());
}

/// Running the translation of `push segment index` puts the segment's
/// entry on top of the stack, advances the stack pointer by one and leaves
/// every other cell as it was.
pub proof fn law_push(
    segment: Segment,
    index: int,
    file: Seq<char>,
    m: Machine,
    rom: Seq<Op>,
    symbols: Map<Seq<char>, int>,
)
    requires
        placed(rom, m.pc, blocks::push(segment, index, file)),
        0 <= index <= MAX_INDEX,
        stack_ok(m, 0, 1),
    ensures
        ({
            let n = blocks::push(segment, index, file).len();
            let r = m.run(rom, symbols, n);
            &&& r.pc == m.pc + n
            &&& r.ram == m.ram.insert(
                m.sp(),
                pushed_value(m, symbols, segment, index, file),
            ).insert(0, m.sp() + 1)
            &&& r.sp() == m.sp() + 1
            &&& r.top() == pushed_value(m, symbols, segment, index, file)
        }),
{
    let n = (blocks::push(segment, index, file).len() - 5) as nat;
    lemma_push_load(segment, index, file, m, rom, symbols);
    let loaded = m.run(rom, symbols, n);
    lemma_push_d(loaded, rom, symbols);
    lemma_run_split(m, rom, symbols, n, 5);
}

/// Running the translation of `pop segment index` takes the topmost value
/// off the stack and stores it in the segment's entry. Where the address
/// is computed from a base register, the first scratch cell holds it
/// afterwards.
pub proof fn law_pop(
    segment: Segment,
    index: int,
    file: Seq<char>,
    m: Machine,
    rom: Seq<Op>,
    symbols: Map<Seq<char>, int>,
)
    requires
        segment != Segment::Constant,
        placed(rom, m.pc, blocks::pop(segment, index, file)->0),
        0 <= index <= MAX_INDEX,
        stack_ok(m, 1, 0),
    ensures
        ({
            let n = (blocks::pop(segment, index, file)->0).len();
            let r = m.run(rom, symbols, n);
            let target = segment_address(m, symbols, segment, index, file);
            let before = if blocks::base_register(segment) is Some {
                m.ram.insert(13, target)
            } else {
                m.ram
            };
            &&& r.pc == m.pc + n
            &&& r.ram == before.insert(0, m.sp() - 1).insert(target, m.top())
            &&& r.ram[target] == m.top()
            &&& target != 0 ==> r.sp() == m.sp() - 1
        }),
{
    reveal_with_fuel(Machine::run, 13);
}

/// Running the translation of `goto name` passes control to the address
/// that the label's symbol stands for, and changes no cell.
pub proof fn law_goto(
    function: Option<Seq<char>>,
    name: Seq<char>,
    m: Machine,
    rom: Seq<Op>,
    symbols: Map<Seq<char>, int>,
)
    requires
        placed(rom, m.pc, blocks::goto(function, name)),
    ensures
        ({
            let r = m.run(rom, symbols, 2);
            &&& r.pc == symbols[blocks::scoped_label(function, name)]
            &&& r.ram == m.ram
        }),
{
    reveal_with_fuel(Machine::run, 3);
}

/// Running the translation of `if-goto name` takes the topmost value off
/// the stack and passes control to the label if the value is not zero, and
/// to the next command if it is zero.
pub proof fn law_if_goto(
    function: Option<Seq<char>>,
    name: Seq<char>,
    m: Machine,
    rom: Seq<Op>,
    symbols: Map<Seq<char>, int>,
)
    requires
        placed(rom, m.pc, blocks::if_goto(function, name)),
        stack_ok(m, 1, 0),
    ensures
        ({
            let r = m.run(rom, symbols, 5);
            &&& r.pc == if m.top() != 0 {
                symbols[blocks::scoped_label(function, name)]
            } else {
                m.pc + 5
            }
            &&& r.ram == m.ram.insert(0, m.sp() - 1)
            &&& r.sp() == m.sp() - 1
        }),
{
    reveal_with_fuel(Machine::run, 6);
}

/// The final sequence keeps the machine in place: after its two
/// instructions control is back at the first, and so it is after any
/// number of rounds, with every cell as it was.
pub proof fn law_halt(
    m: Machine,
    rom: Seq<Op>,
    symbols: Map<Seq<char>, int>,
    rounds: nat,
)
    requires
        placed(rom, m.pc, blocks::halt(m.pc)),
    ensures
        m.run(rom, symbols, 2 * rounds).pc == m.pc,
        m.run(rom, symbols, 2 * rounds).ram == m.ram,
        m.run(rom, symbols, 2 * rounds).d == m.d,
    decreases rounds,
{
    if rounds > 0 {
        let next = m.run(rom, symbols, 2);
        assert(next == Machine { a: m.pc, ..m }) by {
            reveal_with_fuel(Machine::run, 3);
        }
        law_halt(next, rom, symbols, (rounds - 1) as nat);
        lemma_run_split(m, rom, symbols, 2, (2 * (rounds - 1)) as nat);
        assert(2 + (2 * (rounds - 1)) as nat == 2 * rounds);
    }
}

/// The first four instructions of the start-up sequence set the stack
/// pointer to the stack's origin.
pub proof fn lemma_set_stack_origin(m: Machine, rom: Seq<Op>, symbols: Map<Seq<char>, int>)
    requires
        placed(rom, m.pc, blocks::set_stack_origin()),
    ensures
        ({
            let r = m.run(rom, symbols, 4);
            &&& r.pc == m.pc + 4
            &&& r.ram == m.ram.insert(0, blocks::STACK_ORIGIN as int)
            &&& r.sp() == blocks::STACK_ORIGIN
        }),
{
    reveal_with_fuel(Machine::run, 5);
}

/// A relational test leaves one of two words on the stack and never any
/// other: all bits set where the relation holds of the wrapped difference
/// of its operands, all bits clear where it does not.
pub proof fn law_truth_values(op: ArithOp, m: Machine, rom: Seq<Op>, symbols: Map<Seq<char>, int>)
    requires
        op.is_comparison(),
        placed(rom, m.pc, blocks::arithmetic(op, m.pc)),
        stack_ok(m, 2, 0),
    ensures
        ({
            let x = m.ram[m.sp() - 2];
            let y = m.ram[m.sp() - 1];
            let r = m.run(rom, symbols, arith_steps(op, x, y));
            let holds = match op {
                ArithOp::Eq => wrap(x - y) == 0,
                ArithOp::Gt => wrap(x - y) > 0,
                _ => wrap(x - y) < 0,
            };
            &&& r.top() == -1 || r.top() == 0
            &&& r.top() == -1 <==> holds
            &&& r.sp() == m.sp() - 1
        }),
{
    law_arithmetic(op, m, rom, symbols);
}

/// The result of an arithmetic command on words is a word.
pub proof fn law_results_are_words(op: ArithOp, x: int, y: int)
    requires
        is_word(x),
        is_word(y),
    ensures
        is_word(arith_result(op, x, y)),
{
    law_wrap(x + y);
    law_wrap(x - y);
    law_wrap(-y);
    law_bitwise_words(y, x);
    law_bitwise_words(x, y);
}

} // verus!
