//! Sequences of commands that run straight through (arithmetic, push and
//! pop): what their translation does to the memory when the target machine
//! runs it, and how deep the stack is afterwards.

use vstd::prelude::*;
use crate::blocks;
use crate::code_writer::{code, lemma_code_concat, lemma_code_without_labels, State};
use crate::command::{CommandView, Segment, TranslateError};
use crate::effects::{
    arith_ram, arith_steps, law_arithmetic, law_pop, law_push, operands, pushed_value,
    segment_address,
};
use crate::instruction::Op;
use crate::linking::lemma_written_is_placed;
use crate::machine::{lemma_placed_parts, lemma_run_split, placed, Machine};
use crate::text::MAX_INDEX;

verus! {

/// Whether a command runs straight through: it is an arithmetic command, a
/// push, or a pop into a segment that can be written, with an index in
/// range.
pub open spec fn straight(c: CommandView) -> bool {
    match c {
        CommandView::Arithmetic(_) => true,
        CommandView::Push(_, index) => 0 <= index <= MAX_INDEX,
        CommandView::Pop(segment, index) => segment != Segment::Constant && 0 <= index <= MAX_INDEX,
        _ => false,
    }
}

/// By how much a straight command changes the depth of the stack: a binary
/// operation takes one value off, a unary one leaves the depth, a push adds
/// a value and a pop takes one off.
pub open spec fn stack_effect(c: CommandView) -> int {
    match c {
        CommandView::Arithmetic(op) => 1 - operands(op),
        CommandView::Push(_, _) => 1,
        _ => -1,
    }
}

/// The lines that a straight command is translated to in the file `file`
/// when `base` instructions have been written.
pub open spec fn block_of(c: CommandView, base: int, file: Seq<char>) -> Seq<Op> {
    match c {
        CommandView::Arithmetic(op) => blocks::arithmetic(op, base),
        CommandView::Push(segment, index) => blocks::push(segment, index, file),
        CommandView::Pop(segment, index) => blocks::pop(segment, index, file)->0,
        _ => Seq::<Op>::empty(),
    }
}

/// Whether the stack lets a straight command run: it holds the values that
/// the command takes, and has room for the value that a push adds.
pub open spec fn ready(c: CommandView, ram: Map<int, int>) -> bool {
    let sp = ram[0];
    let takes = match c {
        CommandView::Arithmetic(op) => operands(op),
        CommandView::Push(_, _) => 0,
        _ => 1,
    };
    let adds: int = if c is Push {
        1
    } else {
        0
    };
    blocks::STACK_ORIGIN + takes <= sp && sp + adds <= blocks::TOP_ADDRESS
}

/// The cell that a pop writes to.
pub open spec fn pop_target(
    c: CommandView,
    ram: Map<int, int>,
    symbols: Map<Seq<char>, int>,
    file: Seq<char>,
) -> int {
    match c {
        CommandView::Pop(segment, index) => segment_address(
            Machine { a: 0, d: 0, pc: 0, ram },
            symbols,
            segment,
            index,
            file,
        ),
        _ => 0,
    }
}

/// The memory after a straight command has run from the memory `ram`. An
/// arithmetic command replaces its operands by its result; a push stores
/// the segment's entry above the stack; a pop stores the topmost value in
/// the segment's entry, and where the entry's address is computed from a
/// base register, the first scratch cell holds that address afterwards.
pub open spec fn ram_after(
    c: CommandView,
    ram: Map<int, int>,
    symbols: Map<Seq<char>, int>,
    file: Seq<char>,
) -> Map<int, int> {
    let sp = ram[0];
    let m = Machine { a: 0, d: 0, pc: 0, ram };
    match c {
        CommandView::Arithmetic(op) => arith_ram(op, ram),
        CommandView::Push(segment, index) => ram.insert(
            sp,
            pushed_value(m, symbols, segment, index, file),
        ).insert(0, sp + 1),
        CommandView::Pop(segment, index) => {
            let target = segment_address(m, symbols, segment, index, file);
            let kept = if blocks::base_register(segment) is Some {
                ram.insert(13, target)
            } else {
                ram
            };
            kept.insert(0, sp - 1).insert(target, ram[sp - 1])
        },
        _ => ram,
    }
}

/// The number of instructions that the machine runs for a straight
/// command.
pub open spec fn steps_of(c: CommandView, ram: Map<int, int>, file: Seq<char>) -> nat {
    match c {
        CommandView::Arithmetic(op) => arith_steps(op, ram[ram[0] - 2], ram[ram[0] - 1]),
        _ => block_of(c, 0, file).len(),
    }
}

/// Running the translation of a straight command changes the memory as
/// the command says, and leaves control behind the translation.
pub proof fn law_straight_command(
    c: CommandView,
    file: Seq<char>,
    m: Machine,
    rom: Seq<Op>,
    symbols: Map<Seq<char>, int>,
)
    requires
        straight(c),
        placed(rom, m.pc, block_of(c, m.pc, file)),
        ready(c, m.ram),
    ensures
        ({
            let r = m.run(rom, symbols, steps_of(c, m.ram, file));
            &&& r.pc == m.pc + block_of(c, m.pc, file).len()
            &&& r.ram == ram_after(c, m.ram, symbols, file)
        }),
{
    let r = m.run(rom, symbols, steps_of(c, m.ram, file));
    let plain = Machine { a: 0, d: 0, pc: 0, ram: m.ram };
    match c {
        CommandView::Arithmetic(op) => {
            law_arithmetic(op, m, rom, symbols);
        },
        CommandView::Push(segment, index) => {
            law_push(segment, index, file, m, rom, symbols);
            assert(pushed_value(m, symbols, segment, index, file) == pushed_value(
                plain,
                symbols,
                segment,
                index,
                file,
            ));
        },
        CommandView::Pop(segment, index) => {
            law_pop(segment, index, file, m, rom, symbols);
            assert(segment_address(m, symbols, segment, index, file) == segment_address(
                plain,
                symbols,
                segment,
                index,
                file,
            ));
        },
        _ => {},
    }
}

/// The lines that a sequence of straight commands is translated to in the
/// file `file` when `base` instructions have been written.
pub open spec fn lines_of(cs: Seq<CommandView>, base: int, file: Seq<char>) -> Seq<Op>
    decreases cs.len(),
{
    if cs.len() == 0 {
        Seq::<Op>::empty()
    } else {
        let first = block_of(cs[0], base, file);
        first + lines_of(cs.drop_first(), base + first.len(), file)
    }
}

/// Whether the stack lets each command of a sequence run when its turn
/// comes: no command takes a value that is not there.
pub open spec fn all_ready(
    cs: Seq<CommandView>,
    ram: Map<int, int>,
    symbols: Map<Seq<char>, int>,
    file: Seq<char>,
) -> bool
    decreases cs.len(),
{
    cs.len() == 0 || (ready(cs[0], ram) && all_ready(
        cs.drop_first(),
        ram_after(cs[0], ram, symbols, file),
        symbols,
        file,
    ))
}

/// Whether no pop of the sequence writes to the cell of the stack pointer.
pub open spec fn pops_spare_stack_pointer(
    cs: Seq<CommandView>,
    ram: Map<int, int>,
    symbols: Map<Seq<char>, int>,
    file: Seq<char>,
) -> bool
    decreases cs.len(),
{
    cs.len() == 0 || ((cs[0] is Pop ==> pop_target(cs[0], ram, symbols, file) != 0)
        && pops_spare_stack_pointer(
        cs.drop_first(),
        ram_after(cs[0], ram, symbols, file),
        symbols,
        file,
    ))
}

/// The memory after the commands of a sequence have run in order.
pub open spec fn ram_after_all(
    cs: Seq<CommandView>,
    ram: Map<int, int>,
    symbols: Map<Seq<char>, int>,
    file: Seq<char>,
) -> Map<int, int>
    decreases cs.len(),
{
    if cs.len() == 0 {
        ram
    } else {
        ram_after_all(cs.drop_first(), ram_after(cs[0], ram, symbols, file), symbols, file)
    }
}

/// The number of instructions that the machine runs for a sequence of
/// straight commands.
pub open spec fn steps_of_all(
    cs: Seq<CommandView>,
    ram: Map<int, int>,
    symbols: Map<Seq<char>, int>,
    file: Seq<char>,
) -> nat
    decreases cs.len(),
{
    if cs.len() == 0 {
        0
    } else {
        steps_of(cs[0], ram, file) + steps_of_all(
            cs.drop_first(),
            ram_after(cs[0], ram, symbols, file),
            symbols,
            file,
        )
    }
}

/// The sum of the stack effects of a sequence of commands.
pub open spec fn total_effect(cs: Seq<CommandView>) -> int
    decreases cs.len(),
{
    if cs.len() == 0 {
        0
    } else {
        stack_effect(cs[0]) + total_effect(cs.drop_first())
    }
}

/// Whether every command of a sequence runs straight through.
pub open spec fn all_straight(cs: Seq<CommandView>) -> bool {
    forall|i: int| 0 <= i < cs.len() ==> straight(#[trigger] cs[i])
}

/// Running the translation of a sequence of straight commands does to the
/// memory what the commands say, one after the other, and leaves control
/// behind the translation.
pub proof fn law_straight_sequence(
    cs: Seq<CommandView>,
    file: Seq<char>,
    m: Machine,
    rom: Seq<Op>,
    symbols: Map<Seq<char>, int>,
)
    requires
        all_straight(cs),
        placed(rom, m.pc, lines_of(cs, m.pc, file)),
        all_ready(cs, m.ram, symbols, file),
    ensures
        ({
            let r = m.run(rom, symbols, steps_of_all(cs, m.ram, symbols, file));
            &&& r.pc == m.pc + lines_of(cs, m.pc, file).len()
            &&& r.ram == ram_after_all(cs, m.ram, symbols, file)
        }),
    decreases cs.len(),
{
    if cs.len() > 0 {
        let first = block_of(cs[0], m.pc, file);
        let rest = lines_of(cs.drop_first(), m.pc + first.len(), file);
        lemma_placed_parts(rom, m.pc, first, rest);
        assert(straight(cs[0]));
        law_straight_command(cs[0], file, m, rom, symbols);
        let n = steps_of(cs[0], m.ram, file);
        let next = m.run(rom, symbols, n);
        assert(all_straight(cs.drop_first())) by {
            assert forall|i: int| 0 <= i < cs.drop_first().len() implies straight(
                #[trigger] cs.drop_first()[i],
            ) by {
                assert(cs.drop_first()[i] == cs[i + 1]);
            }
        }
        law_straight_sequence(cs.drop_first(), file, next, rom, symbols);
        lemma_run_split(
            m,
            rom,
            symbols,
            n,
            steps_of_all(cs.drop_first(), next.ram, symbols, file),
        );
    }
}

/// A straight command changes the depth of the stack by its stack effect,
/// unless it is a pop that writes to the cell of the stack pointer.
pub proof fn lemma_depth_after(
    c: CommandView,
    ram: Map<int, int>,
    symbols: Map<Seq<char>, int>,
    file: Seq<char>,
)
    requires
        straight(c),
        ready(c, ram),
        c is Pop ==> pop_target(c, ram, symbols, file) != 0,
    ensures
        ram_after(c, ram, symbols, file)[0] == ram[0] + stack_effect(c),
{
}

/// The depth of the stack after a sequence of straight commands is the
/// depth before plus the sum of the commands' stack effects: minus one for
/// each binary operation and each pop, plus one for each push, nothing for
/// a unary operation. This holds where no command takes a value that is
/// not there, and no pop writes to the cell of the stack pointer.
pub proof fn law_stack_depth(
    cs: Seq<CommandView>,
    file: Seq<char>,
    m: Machine,
    rom: Seq<Op>,
    symbols: Map<Seq<char>, int>,
)
    requires
        all_straight(cs),
        placed(rom, m.pc, lines_of(cs, m.pc, file)),
        all_ready(cs, m.ram, symbols, file),
        pops_spare_stack_pointer(cs, m.ram, symbols, file),
    ensures
        m.run(rom, symbols, steps_of_all(cs, m.ram, symbols, file)).sp() == m.sp() + total_effect(
            cs,
        ),
{
    law_straight_sequence(cs, file, m, rom, symbols);
    lemma_depth_of_all(cs, m.ram, symbols, file);
}

/// The stack pointer after a sequence of straight commands, read off the
/// memory that the commands leave.
proof fn lemma_depth_of_all(
    cs: Seq<CommandView>,
    ram: Map<int, int>,
    symbols: Map<Seq<char>, int>,
    file: Seq<char>,
)
    requires
        all_straight(cs),
        all_ready(cs, ram, symbols, file),
        pops_spare_stack_pointer(cs, ram, symbols, file),
    ensures
        ram_after_all(cs, ram, symbols, file)[0] == ram[0] + total_effect(cs),
    decreases cs.len(),
{
    if cs.len() > 0 {
        assert(straight(cs[0]));
        lemma_depth_after(cs[0], ram, symbols, file);
        assert(all_straight(cs.drop_first())) by {
            assert forall|i: int| 0 <= i < cs.drop_first().len() implies straight(
                #[trigger] cs.drop_first()[i],
            ) by {
                assert(cs.drop_first()[i] == cs[i + 1]);
            }
        }
        lemma_depth_of_all(cs.drop_first(), ram_after(cs[0], ram, symbols, file), symbols, file);
    }
}

/// The state of the generator after translating a sequence of straight
/// commands.
pub open spec fn translate_straight(s: State, cs: Seq<CommandView>) -> State
    decreases cs.len(),
{
    if cs.len() == 0 {
        s
    } else {
        translate_straight(s.append(block_of(cs[0], s.count(), s.file)), cs.drop_first())
    }
}

/// Translating a straight command appends the command's lines, and a
/// sequence of straight commands appends the lines of the sequence. In a
/// program that holds them, they stand at the position that the count of
/// instructions had before.
pub proof fn law_straight_written(s: State, cs: Seq<CommandView>, after: Seq<Op>)
    requires
        all_straight(cs),
    ensures
        cs.len() > 0 ==> s.translate(cs[0]) == Ok::<State, TranslateError>(
            s.append(block_of(cs[0], s.count(), s.file)),
        ),
        translate_straight(s, cs) == s.append(lines_of(cs, s.count(), s.file)),
        placed(
            code(translate_straight(s, cs).lines + after),
            s.count(),
            lines_of(cs, s.count(), s.file),
        ),
    decreases cs.len(),
{
    let all = lines_of(cs, s.count(), s.file);
    if cs.len() == 0 {
        assert(s.lines + all =~= s.lines);
    } else {
        assert(straight(cs[0]));
        let first = block_of(cs[0], s.count(), s.file);
        let next = s.append(first);
        lemma_block_is_code(cs[0], s.count(), s.file);
        lemma_code_concat(s.lines, first);
        assert(next.count() == s.count() + first.len());
        assert(all_straight(cs.drop_first())) by {
            assert forall|i: int| 0 <= i < cs.drop_first().len() implies straight(
                #[trigger] cs.drop_first()[i],
            ) by {
                assert(cs.drop_first()[i] == cs[i + 1]);
            }
        }
        law_straight_written(next, cs.drop_first(), after);
        let rest = lines_of(cs.drop_first(), next.count(), s.file);
        assert(next.lines + rest =~= s.lines + all);
    }
    lemma_lines_are_code(cs, s.count(), s.file);
    lemma_written_is_placed(s.lines, all, after);
}

/// The lines of a straight command are instructions: none is a label.
proof fn lemma_block_is_code(c: CommandView, base: int, file: Seq<char>)
    requires
        straight(c),
    ensures
        code(block_of(c, base, file)) == block_of(c, base, file),
{
    lemma_code_without_labels(block_of(c, base, file));
}

/// The lines of a sequence of straight commands are instructions.
proof fn lemma_lines_are_code(cs: Seq<CommandView>, base: int, file: Seq<char>)
    requires
        all_straight(cs),
    ensures
        code(lines_of(cs, base, file)) == lines_of(cs, base, file),
    decreases cs.len(),
{
    if cs.len() > 0 {
        assert(straight(cs[0]));
        let first = block_of(cs[0], base, file);
        lemma_block_is_code(cs[0], base, file);
        assert(all_straight(cs.drop_first())) by {
            assert forall|i: int| 0 <= i < cs.drop_first().len() implies straight(
                #[trigger] cs.drop_first()[i],
            ) by {
                assert(cs.drop_first()[i] == cs[i + 1]);
            }
        }
        lemma_lines_are_code(cs.drop_first(), base + first.len(), file);
        lemma_code_concat(first, lines_of(cs.drop_first(), base + first.len(), file));
    }
}

} // verus!
