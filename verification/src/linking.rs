//! How the lines that the generator writes become a program: which
//! instruction stands at which position of the program memory, and which
//! position a label names.

use vstd::prelude::*;
use crate::blocks;
use crate::command::ArithOp;
use crate::code_writer::{
    code, lemma_code_concat, lemma_code_single, lemma_code_without_labels, State,
};
use crate::instruction::{Comp, Dest, Jump, Op, Reg};
use crate::machine::placed;

verus! {

/// Whether `symbols` gives every label of the program the position of the
/// instruction that follows it: the number of instructions before the
/// label.
pub open spec fn resolves(lines: Seq<Op>, symbols: Map<Seq<char>, int>) -> bool {
    forall|i: int|
        0 <= i < lines.len() ==> ((#[trigger] lines[i]) matches Op::Label(name) ==> symbols[name]
            == code(lines.subrange(0, i)).len())
}

/// What is written between two parts of a program stands in the program
/// memory at the position that the count of instructions had when it was
/// written.
pub proof fn lemma_written_is_placed(before: Seq<Op>, block: Seq<Op>, after: Seq<Op>)
    ensures
        placed(code(before + block + after), code(before).len() as int, code(block)),
{
    lemma_code_concat(before + block, after);
    lemma_code_concat(before, block);
    let rom = code(before + block + after);
    assert(rom == code(before) + code(block) + code(after));
    assert forall|j: int|
        code(before).len() <= j < code(before).len() + code(block).len() implies #[trigger] rom[j]
        == code(block)[j - code(before).len()] by {}
}

/// A label written between two parts of a program names the position that
/// the count of instructions had when it was written.
pub proof fn lemma_label_position(
    before: Seq<Op>,
    name: Seq<char>,
    after: Seq<Op>,
    symbols: Map<Seq<char>, int>,
)
    requires
        resolves(before + seq![Op::Label(name)] + after, symbols),
    ensures
        symbols[name] == code(before).len(),
{
    let lines = before + seq![Op::Label(name)] + after;
    let i = before.len() as int;
    assert(lines[i] == Op::Label(name));
    assert(lines.subrange(0, i) =~= before);
}

/// The instructions of the translation of a call are the call's body: the
/// marker behind it takes no place.
pub proof fn lemma_code_of_call(name: Seq<char>, args: int, site: nat)
    ensures
        code(blocks::call(name, args, site)) == blocks::call_body(name, args, site),
        blocks::call_body(name, args, site).len() == blocks::CALL_LENGTH,
{
    let body = blocks::call_body(name, args, site);
    lemma_code_concat(body, seq![Op::Label(blocks::return_symbol(site))]);
    lemma_code_single(Op::Label(blocks::return_symbol(site)));
    lemma_code_without_labels(body);
    assert(body + Seq::<Op>::empty() =~= body);
}

/// The instructions of the translation of a function command are the
/// function's entry sequence: the marker before it takes no place.
pub proof fn lemma_code_of_function(name: Seq<char>, locals: int, base: int)
    ensures
        code(blocks::function(name, locals, base)) == blocks::function_body(locals, base),
        blocks::function_body(locals, base).len() == blocks::FUNCTION_LENGTH,
{
    let body = blocks::function_body(locals, base);
    lemma_code_concat(seq![Op::Label(name)], body);
    lemma_code_single(Op::Label(name));
    lemma_code_without_labels(body);
    assert(Seq::<Op>::empty() + body =~= body);
}

/// Every jump to a label lands on the label: in a program that holds the
/// translation of `label name`, written in the function `function` when the
/// count of instructions was `before`'s, the symbol that the translations
/// of `goto name` and `if-goto name` in the same function jump to stands
/// for that count.
pub proof fn law_label_target(
    state: State,
    name: Seq<char>,
    after: Seq<Op>,
    symbols: Map<Seq<char>, int>,
)
    requires
        resolves(state.label(name).lines + after, symbols),
    ensures
        symbols[blocks::scoped_label(state.function, name)] == state.count(),
        blocks::goto(state.function, name)[0] == Op::Symbol(
            blocks::scoped_label(state.function, name),
        ),
        blocks::if_goto(state.function, name)[3] == Op::Symbol(
            blocks::scoped_label(state.function, name),
        ),
{
    lemma_label_position(state.lines, blocks::scoped_label(state.function, name), after, symbols);
}

/// The return address of a call is the position right behind the call:
/// in a program that holds the translation of a call written in `state`,
/// the symbol that the call pushes stands for the count of instructions
/// after the call's last instruction.
pub proof fn law_return_target(
    state: State,
    name: Seq<char>,
    args: int,
    after: Seq<Op>,
    symbols: Map<Seq<char>, int>,
)
    requires
        resolves(state.call(name, args).lines + after, symbols),
    ensures
        symbols[blocks::return_symbol(state.calls)] == state.count() + blocks::CALL_LENGTH,
        state.call(name, args).count() == state.count() + blocks::CALL_LENGTH,
{
    let body = blocks::call_body(name, args, state.calls);
    let mark = seq![Op::Label(blocks::return_symbol(state.calls))];
    assert(state.call(name, args).lines + after =~= (state.lines + body) + mark + after);
    lemma_label_position(state.lines + body, blocks::return_symbol(state.calls), after, symbols);
    lemma_code_concat(state.lines, body);
    lemma_code_without_labels(body);
    lemma_code_of_call(name, args, state.calls);
    lemma_code_concat(state.lines, blocks::call(name, args, state.calls));
}

/// A call of a function lands on the function's entry: in a program that
/// holds the translation of `function name locals` written in `state`, the
/// symbol that a call of `name` jumps to stands for the position of the
/// first instruction of the function's entry sequence.
pub proof fn law_function_target(
    state: State,
    name: Seq<char>,
    locals: int,
    after: Seq<Op>,
    symbols: Map<Seq<char>, int>,
)
    requires
        resolves(state.function(name, locals).lines + after, symbols),
    ensures
        symbols[name] == state.count(),
        placed(
            code(state.function(name, locals).lines + after),
            state.count(),
            blocks::function_body(locals, state.count()),
        ),
{
    let body = blocks::function_body(locals, state.count());
    assert(state.function(name, locals).lines + after =~= state.lines + seq![Op::Label(name)] + (
    body + after));
    lemma_label_position(state.lines, name, body + after, symbols);
    lemma_written_is_placed(state.lines, blocks::function(name, locals, state.count()), after);
    lemma_code_of_function(name, locals, state.count());
}

/// The jumps inside a comparison name the positions of their targets in
/// the finished program: the number loaded before the conditional jump is
/// the position of the instructions that write "true", and the number
/// loaded before the jump that ends the other branch is the position at
/// which the two branches meet.
pub proof fn law_comparison_targets(state: State, op: ArithOp, after: Seq<Op>)
    requires
        op.is_comparison(),
    ensures
        ({
            let rom = code(state.arithmetic(op).lines + after);
            let base = state.count();
            let writes_true = base + blocks::COMPARE_TRUE;
            let end = base + blocks::COMPARE_END;
            &&& rom[base + 6] == Op::Literal(writes_true)
            &&& rom[base + 7] matches Op::Compute(Dest::Null, Comp::D, jump) && jump != Jump::Null
            &&& rom.subrange(writes_true, writes_true + 3) == seq![
                blocks::at(Reg::Sp),
                blocks::set(Dest::A, Comp::M),
                blocks::set(Dest::M, Comp::MinusOne),
            ]
            &&& rom[base + 11] == Op::Literal(end)
            &&& rom[base + 12] == blocks::branch(Comp::Zero, Jump::Jmp)
            &&& rom.subrange(end, end + 2) == seq![
                blocks::at(Reg::Sp),
                blocks::set(Dest::M, Comp::MPlusOne),
            ]
            &&& state.arithmetic(op).count() == end + 2
        }),
{
    let block = blocks::arithmetic(op, state.count());
    let rom = code(state.arithmetic(op).lines + after);
    let base = state.count();
    lemma_written_is_placed(state.lines, block, after);
    lemma_code_without_labels(block);
    lemma_code_concat(state.lines, block);
    assert(block.len() == 18);
    assert forall|k: int| 0 <= k < 18 implies rom[base + k] == block[k] by {
        assert(rom[base + k] == block[base + k - base]);
    }
    assert(rom[base + 6] == block[6]);
    assert(rom[base + 7] == block[7]);
    assert(rom[base + 11] == block[11]);
    assert(rom[base + 12] == block[12]);
    assert(rom.subrange(base + 13, base + 16) =~= seq![block[13], block[14], block[15]]);
    assert(rom.subrange(base + 16, base + 18) =~= seq![block[16], block[17]]);
}

/// The jumps at the entry of a function name the positions of their
/// targets in the finished program: the loop that clears the local
/// variables leaves for the position right behind the entry sequence, and
/// goes round to the position of its own head.
pub proof fn law_function_loop_targets(
    state: State,
    name: Seq<char>,
    locals: int,
    after: Seq<Op>,
)
    ensures
        ({
            let rom = code(state.function(name, locals).lines + after);
            let base = state.count();
            &&& rom[base + blocks::FUNCTION_LOOP] == Op::Literal(base + blocks::FUNCTION_LENGTH)
            &&& rom[base + 3] == blocks::branch(Comp::D, Jump::Jeq)
            &&& rom[base + 10] == Op::Literal(base + blocks::FUNCTION_LOOP)
            &&& rom[base + 11] == blocks::branch(Comp::Zero, Jump::Jmp)
            &&& state.function(name, locals).count() == base + blocks::FUNCTION_LENGTH
        }),
{
    let block = blocks::function(name, locals, state.count());
    let body = blocks::function_body(locals, state.count());
    let rom = code(state.function(name, locals).lines + after);
    let base = state.count();
    lemma_written_is_placed(state.lines, block, after);
    lemma_code_of_function(name, locals, state.count());
    lemma_code_concat(state.lines, block);
    assert forall|k: int| 0 <= k < 12 implies rom[base + k] == body[k] by {
        assert(rom[base + k] == body[base + k - base]);
    }
    assert(rom[base + 2] == body[2]);
    assert(rom[base + 3] == body[3]);
    assert(rom[base + 10] == body[10]);
    assert(rom[base + 11] == body[11]);
}

/// The jump of the final sequence names its own position in the finished
/// program.
pub proof fn law_halt_target(state: State, after: Seq<Op>)
    ensures
        ({
            let rom = code(state.halt().lines + after);
            &&& rom[state.count()] == Op::Literal(state.count())
            &&& rom[state.count() + 1] == blocks::branch(Comp::Zero, Jump::Jmp)
        }),
{
    let block = blocks::halt(state.count());
    let rom = code(state.halt().lines + after);
    let base = state.count();
    lemma_written_is_placed(state.lines, block, after);
    lemma_code_without_labels(block);
    assert(rom[base] == block[base - base]);
    assert(rom[base + 1] == block[base + 1 - base]);
}

} // verus!
