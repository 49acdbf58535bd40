//! The calling convention on the target machine: what the translations of
//! `call`, `function` and `return` do when they are run, and that a return
//! undoes a call.

use vstd::prelude::*;
use crate::blocks;
use crate::effects::{lemma_pop_d, lemma_push_d, lemma_set_stack_origin, stack_ok};
use crate::instruction::{Op, Reg};
use crate::machine::{lemma_placed_parts, lemma_run_split, placed, Machine};
use crate::text::MAX_INDEX;

verus! {

/// Saving a named cell pushes its contents.
proof fn lemma_save(reg: Reg, m: Machine, rom: Seq<Op>, symbols: Map<Seq<char>, int>)
    requires
        placed(rom, m.pc, blocks::save(reg)),
        stack_ok(m, 0, 1),
    ensures
        ({
            let r = m.run(rom, symbols, 7);
            &&& r.pc == m.pc + 7
            &&& r.ram == m.ram.insert(m.sp(), m.ram[reg.address()]).insert(0, m.sp() + 1)
        }),
{
    reveal_with_fuel(Machine::run, 8);
}

/// Pushing the return address pushes the address that its symbol stands
/// for.
proof fn lemma_push_return(site: nat, m: Machine, rom: Seq<Op>, symbols: Map<Seq<char>, int>)
    requires
        placed(rom, m.pc, blocks::push_return(site)),
        stack_ok(m, 0, 1),
    ensures
        ({
            let r = m.run(rom, symbols, 7);
            &&& r.pc == m.pc + 7
            &&& r.ram == m.ram.insert(m.sp(), symbols[blocks::return_symbol(site)]).insert(
                0,
                m.sp() + 1,
            )
        }),
{
    reveal_with_fuel(Machine::run, 8);
}

/// Repositioning sets the argument base below the frame and the arguments,
/// and the local base to the top of the stack.
proof fn lemma_reposition(args: int, m: Machine, rom: Seq<Op>, symbols: Map<Seq<char>, int>)
    requires
        placed(rom, m.pc, blocks::reposition(args)),
        0 <= args <= MAX_INDEX,
        stack_ok(m, 0, 0),
    ensures
        ({
            let r = m.run(rom, symbols, 12);
            &&& r.pc == m.pc + 12
            &&& r.ram == m.ram.insert(2, m.sp() - args - 5).insert(1, m.sp())
        }),
{
    reveal_with_fuel(Machine::run, 13);
}

/// The memory after a call from a state with memory `ram`, where `ret` is
/// the return address and `args` the number of arguments: the return
/// address and the four segment pointers lie on the stack, the argument
/// base points at the first argument, and the local base and the stack
/// pointer stand above the saved words.
pub open spec fn call_ram(ram: Map<int, int>, ret: int, args: int) -> Map<int, int> {
    let sp = ram[0];
    ram.insert(sp, ret).insert(0, sp + 1).insert(sp + 1, ram[1]).insert(0, sp + 2).insert(
        sp + 2,
        ram[2],
    ).insert(0, sp + 3).insert(sp + 3, ram[3]).insert(0, sp + 4).insert(sp + 4, ram[4]).insert(
        0,
        sp + 5,
    ).insert(2, sp - args).insert(1, sp + 5)
}

/// Running the translation of `call name args` saves the return address
/// and the caller's segment pointers on the stack, sets up the callee's
/// argument and local bases, and passes control to the function.
pub proof fn law_call(
    name: Seq<char>,
    args: int,
    site: nat,
    m: Machine,
    rom: Seq<Op>,
    symbols: Map<Seq<char>, int>,
)
    requires
        placed(rom, m.pc, blocks::call_body(name, args, site)),
        0 <= args <= MAX_INDEX,
        stack_ok(m, 0, 5),
    ensures
        ({
            let r = m.run(rom, symbols, blocks::CALL_LENGTH as nat);
            &&& r.pc == symbols[name]
            &&& r.ram == call_ram(m.ram, symbols[blocks::return_symbol(site)], args)
            &&& r.sp() == m.sp() + 5
            &&& r.lcl() == m.sp() + 5
            &&& r.arg() == m.sp() - args
        }),
{
    let b = m.pc;
    let ret = blocks::push_return(site);
    let s1 = blocks::save(Reg::Lcl);
    let s2 = blocks::save(Reg::Arg);
    let s3 = blocks::save(Reg::This);
    let s4 = blocks::save(Reg::That);
    let rep = blocks::reposition(args);
    let jmp = blocks::jump_to(name);
    lemma_placed_parts(rom, b, ret + s1 + s2 + s3 + s4 + rep, jmp);
    lemma_placed_parts(rom, b, ret + s1 + s2 + s3 + s4, rep);
    lemma_placed_parts(rom, b, ret + s1 + s2 + s3, s4);
    lemma_placed_parts(rom, b, ret + s1 + s2, s3);
    lemma_placed_parts(rom, b, ret + s1, s2);
    lemma_placed_parts(rom, b, ret, s1);
    lemma_push_return(site, m, rom, symbols);
    let m1 = m.run(rom, symbols, 7);
    lemma_save(Reg::Lcl, m1, rom, symbols);
    let m2 = m1.run(rom, symbols, 7);
    lemma_save(Reg::Arg, m2, rom, symbols);
    let m3 = m2.run(rom, symbols, 7);
    lemma_save(Reg::This, m3, rom, symbols);
    let m4 = m3.run(rom, symbols, 7);
    lemma_save(Reg::That, m4, rom, symbols);
    let m5 = m4.run(rom, symbols, 7);
    lemma_reposition(args, m5, rom, symbols);
    let m6 = m5.run(rom, symbols, 12);
    assert(m6.run(rom, symbols, 2).pc == symbols[name] && m6.run(rom, symbols, 2).ram == m6.ram)
        by {
        reveal_with_fuel(Machine::run, 3);
    }
    lemma_run_split(m, rom, symbols, 7, 7);
    lemma_run_split(m, rom, symbols, 14, 7);
    lemma_run_split(m, rom, symbols, 21, 7);
    lemma_run_split(m, rom, symbols, 28, 7);
    lemma_run_split(m, rom, symbols, 35, 12);
    lemma_run_split(m, rom, symbols, 47, 2);
}

/// Restoring loads into a named cell the word that lies `back` cells below
/// the frame base kept in the first scratch cell.
proof fn lemma_restore(
    reg: Reg,
    back: int,
    m: Machine,
    rom: Seq<Op>,
    symbols: Map<Seq<char>, int>,
)
    requires
        placed(rom, m.pc, blocks::restore(reg, back)),
        0 <= back <= blocks::FRAME_WORDS,
        blocks::FRAME_WORDS <= m.ram[13] <= blocks::TOP_ADDRESS,
    ensures
        ({
            let r = m.run(rom, symbols, 7);
            &&& r.pc == m.pc + 7
            &&& r.ram == m.ram.insert(reg.address(), m.ram[m.ram[13] - back])
        }),
{
    reveal_with_fuel(Machine::run, 8);
}

/// Keeping the frame copies the local base into the first scratch cell.
proof fn lemma_keep_frame(m: Machine, rom: Seq<Op>, symbols: Map<Seq<char>, int>)
    requires
        placed(rom, m.pc, blocks::keep_frame()),
    ensures
        ({
            let r = m.run(rom, symbols, 4);
            &&& r.pc == m.pc + 4
            &&& r.ram == m.ram.insert(13, m.lcl())
        }),
{
    reveal_with_fuel(Machine::run, 5);
}

/// Placing the result moves the topmost value to the cell at the argument
/// base and sets the stack pointer just above it.
proof fn lemma_place_result(m: Machine, rom: Seq<Op>, symbols: Map<Seq<char>, int>)
    requires
        placed(rom, m.pc, blocks::place_result()),
        stack_ok(m, 1, 0),
        blocks::STACK_ORIGIN <= m.arg() < blocks::TOP_ADDRESS,
    ensures
        ({
            let r = m.run(rom, symbols, 10);
            &&& r.pc == m.pc + 10
            &&& r.ram == m.ram.insert(0, m.sp() - 1).insert(m.arg(), m.top()).insert(
                0,
                m.arg() + 1,
            )
        }),
{
    reveal_with_fuel(Machine::run, 11);
}

/// Leaving jumps to the address kept in the second scratch cell.
proof fn lemma_leave(m: Machine, rom: Seq<Op>, symbols: Map<Seq<char>, int>)
    requires
        placed(rom, m.pc, blocks::leave()),
    ensures
        ({
            let r = m.run(rom, symbols, 3);
            &&& r.pc == m.ram[14]
            &&& r.ram == m.ram
        }),
{
    reveal_with_fuel(Machine::run, 4);
}

/// Whether the machine stands in a function whose frame is intact: the
/// argument base lies in the stack, the five saved words lie between it
/// and the local base, and at least one value lies on the stack.
pub open spec fn in_frame(m: Machine) -> bool {
    &&& blocks::STACK_ORIGIN <= m.arg()
    &&& m.arg() + blocks::FRAME_WORDS <= m.lcl()
    &&& m.lcl() <= blocks::TOP_ADDRESS
    &&& stack_ok(m, 1, 0)
}

/// The memory after a return from a state with memory `ram`: the scratch
/// cells hold the frame base and the return address, the value that was on
/// top lies at the argument base with the stack pointer just above it, and
/// the four segment pointers hold the words saved in the frame.
pub open spec fn return_ram(ram: Map<int, int>) -> Map<int, int> {
    let sp = ram[0];
    let frame = ram[1];
    let arg = ram[2];
    ram.insert(13, frame).insert(14, ram[frame - 5]).insert(0, sp - 1).insert(
        arg,
        ram[sp - 1],
    ).insert(0, arg + 1).insert(4, ram[frame - 1]).insert(3, ram[frame - 2]).insert(
        2,
        ram[frame - 3],
    ).insert(1, ram[frame - 4])
}

/// Running the translation of `return` hands the topmost value to the
/// caller in place of the arguments, restores the caller's segment pointers
/// from the frame and passes control to the saved return address.
pub proof fn law_return(m: Machine, rom: Seq<Op>, symbols: Map<Seq<char>, int>)
    requires
        placed(rom, m.pc, blocks::ret()),
        in_frame(m),
    ensures
        ({
            let r = m.run(rom, symbols, blocks::RETURN_LENGTH as nat);
            &&& r.pc == m.ram[m.lcl() - 5]
            &&& r.ram == return_ram(m.ram)
            &&& r.sp() == m.arg() + 1
            &&& r.top() == m.top()
            &&& r.that() == m.ram[m.lcl() - 1]
            &&& r.this() == m.ram[m.lcl() - 2]
            &&& r.arg() == m.ram[m.lcl() - 3]
            &&& r.lcl() == m.ram[m.lcl() - 4]
        }),
{
    let b = m.pc;
    let k = blocks::keep_frame();
    let r14 = blocks::restore(Reg::R14, 5);
    let pl = blocks::place_result();
    let r4 = blocks::restore(Reg::That, 1);
    let r3 = blocks::restore(Reg::This, 2);
    let r2 = blocks::restore(Reg::Arg, 3);
    let r1 = blocks::restore(Reg::Lcl, 4);
    let lv = blocks::leave();
    lemma_placed_parts(rom, b, k + r14 + pl + r4 + r3 + r2 + r1, lv);
    lemma_placed_parts(rom, b, k + r14 + pl + r4 + r3 + r2, r1);
    lemma_placed_parts(rom, b, k + r14 + pl + r4 + r3, r2);
    lemma_placed_parts(rom, b, k + r14 + pl + r4, r3);
    lemma_placed_parts(rom, b, k + r14 + pl, r4);
    lemma_placed_parts(rom, b, k + r14, pl);
    lemma_placed_parts(rom, b, k, r14);
    lemma_keep_frame(m, rom, symbols);
    let m1 = m.run(rom, symbols, 4);
    lemma_restore(Reg::R14, 5, m1, rom, symbols);
    let m2 = m1.run(rom, symbols, 7);
    lemma_place_result(m2, rom, symbols);
    let m3 = m2.run(rom, symbols, 10);
    lemma_restore(Reg::That, 1, m3, rom, symbols);
    let m4 = m3.run(rom, symbols, 7);
    lemma_restore(Reg::This, 2, m4, rom, symbols);
    let m5 = m4.run(rom, symbols, 7);
    lemma_restore(Reg::Arg, 3, m5, rom, symbols);
    let m6 = m5.run(rom, symbols, 7);
    lemma_restore(Reg::Lcl, 4, m6, rom, symbols);
    let m7 = m6.run(rom, symbols, 7);
    lemma_leave(m7, rom, symbols);
    lemma_run_split(m, rom, symbols, 4, 7);
    lemma_run_split(m, rom, symbols, 11, 10);
    lemma_run_split(m, rom, symbols, 21, 7);
    lemma_run_split(m, rom, symbols, 28, 7);
    lemma_run_split(m, rom, symbols, 35, 7);
    lemma_run_split(m, rom, symbols, 42, 7);
    lemma_run_split(m, rom, symbols, 49, 3);
}

/// Whether `callee` is a state that a function called from `caller` with
/// `args` arguments may have reached when it returns: `entry` is the state
/// right after the call; since then the argument and local bases and the
/// five saved words are as the call left them, and a value to return lies
/// on the stack.
pub open spec fn ready_to_return(entry: Machine, callee: Machine) -> bool {
    &&& callee.lcl() == entry.lcl()
    &&& callee.arg() == entry.arg()
    &&& forall|k: int| entry.lcl() - 5 <= k < entry.lcl() ==> callee.ram[k] == entry.ram[k]
    &&& stack_ok(callee, 1, 0)
}

/// A call followed by a return gives the caller back what it had: the four
/// segment pointers hold their values from before the call, the arguments
/// on the stack are replaced by the one value that the function returned,
/// the return leaves the stack below the arguments alone, and control
/// resumes at the return address of the call site. Where that
/// address is the position right behind the call, as the marker written
/// there says, control resumes right behind the call.
pub proof fn law_call_return(
    name: Seq<char>,
    args: int,
    site: nat,
    caller: Machine,
    callee: Machine,
    rom: Seq<Op>,
    symbols: Map<Seq<char>, int>,
)
    requires
        placed(rom, caller.pc, blocks::call_body(name, args, site)),
        placed(rom, callee.pc, blocks::ret()),
        0 <= args <= MAX_INDEX,
        stack_ok(caller, args, 5),
        ready_to_return(caller.run(rom, symbols, blocks::CALL_LENGTH as nat), callee),
    ensures
        ({
            let back = callee.run(rom, symbols, blocks::RETURN_LENGTH as nat);
            &&& back.lcl() == caller.lcl()
            &&& back.arg() == caller.arg()
            &&& back.this() == caller.this()
            &&& back.that() == caller.that()
            &&& back.sp() == caller.sp() - args + 1
            &&& back.top() == callee.top()
            &&& forall|k: int|
                blocks::STACK_ORIGIN <= k < caller.sp() - args ==> back.ram[k] == callee.ram[k]
            &&& back.pc == symbols[blocks::return_symbol(site)]
            &&& symbols[blocks::return_symbol(site)] == caller.pc + blocks::CALL_LENGTH
                ==> back.pc == caller.pc + blocks::CALL_LENGTH
        }),
{
    law_call(name, args, site, caller, rom, symbols);
    law_return(callee, rom, symbols);
}

/// The memory after pushing `n` zeros.
pub open spec fn zeros_pushed(ram: Map<int, int>, n: nat) -> Map<int, int>
    decreases n,
{
    if n == 0 {
        ram
    } else {
        zeros_pushed(ram.insert(ram[0], 0).insert(0, ram[0] + 1), (n - 1) as nat)
    }
}

/// Pushing `n` zeros advances the stack pointer by `n`, clears the `n`
/// cells from the old stack pointer on, and changes no other cell.
pub proof fn lemma_zeros_pushed(ram: Map<int, int>, n: nat)
    requires
        ram[0] > 0,
    ensures
        zeros_pushed(ram, n)[0] == ram[0] + n,
        forall|k: int| ram[0] <= k < ram[0] + n ==> zeros_pushed(ram, n)[k] == 0,
        forall|k: int| k != 0 && !(ram[0] <= k < ram[0] + n) ==> zeros_pushed(ram, n)[k] == ram[k],
    decreases n,
{
    if n > 0 {
        let next = ram.insert(ram[0], 0).insert(0, ram[0] + 1);
        lemma_zeros_pushed(next, (n - 1) as nat);
        assert(zeros_pushed(ram, n) == zeros_pushed(next, (n - 1) as nat));
        assert forall|k: int| ram[0] <= k < ram[0] + n implies zeros_pushed(ram, n)[k] == 0 by {
            if k == ram[0] {
                assert(zeros_pushed(next, (n - 1) as nat)[k] == next[k]);
            } else {
                assert(zeros_pushed(next, (n - 1) as nat)[k] == 0);
            }
        }
        assert forall|k: int| k != 0 && !(ram[0] <= k < ram[0] + n) implies zeros_pushed(
            ram,
            n,
        )[k] == ram[k] by {
            assert(zeros_pushed(next, (n - 1) as nat)[k] == next[k]);
        }
    }
}

/// One round of the loop that clears the local variables, and all that
/// follow: from the loop's head with `count` in the data register, the
/// machine pushes `count` zeros and leaves the sequence at its end.
proof fn lemma_clear_locals(
    locals: int,
    base: int,
    count: nat,
    m: Machine,
    rom: Seq<Op>,
    symbols: Map<Seq<char>, int>,
)
    requires
        placed(rom, base, blocks::function_body(locals, base)),
        m.pc == base + blocks::FUNCTION_LOOP,
        m.d == count,
        count <= MAX_INDEX,
        stack_ok(m, 0, count as int),
    ensures
        ({
            let r = m.run(rom, symbols, 10 * count + 2);
            &&& r.pc == base + blocks::FUNCTION_LENGTH
            &&& r.ram == zeros_pushed(m.ram, count)
        }),
    decreases count,
{
    if count == 0 {
        reveal_with_fuel(Machine::run, 3);
    } else {
        let next = m.run(rom, symbols, 10);
        assert(next == (Machine {
            a: base + blocks::FUNCTION_LOOP,
            d: count - 1,
            pc: base + blocks::FUNCTION_LOOP,
            ram: m.ram.insert(m.sp(), 0).insert(0, m.sp() + 1),
        })) by {
            reveal_with_fuel(Machine::run, 11);
        }
        lemma_clear_locals(locals, base, (count - 1) as nat, next, rom, symbols);
        lemma_run_split(m, rom, symbols, 10, (10 * (count - 1) + 2) as nat);
        assert(10 + (10 * (count - 1) + 2) as nat == 10 * count + 2);
    }
}

/// Running the instructions at the entry of a function with `locals` local
/// variables pushes that many zeros, whatever the number, and leaves the
/// sequence at its end: with no local variables nothing is pushed.
pub proof fn law_function(
    locals: int,
    m: Machine,
    rom: Seq<Op>,
    symbols: Map<Seq<char>, int>,
)
    requires
        placed(rom, m.pc, blocks::function_body(locals, m.pc)),
        0 <= locals <= MAX_INDEX,
        stack_ok(m, 0, locals),
    ensures
        ({
            let r = m.run(rom, symbols, (10 * locals + 4) as nat);
            &&& r.pc == m.pc + blocks::FUNCTION_LENGTH
            &&& r.ram == zeros_pushed(m.ram, locals as nat)
            &&& r.sp() == m.sp() + locals
            &&& forall|k: int| m.sp() <= k < m.sp() + locals ==> r.ram[k] == 0
            &&& forall|k: int| k != 0 && !(m.sp() <= k < m.sp() + locals) ==> r.ram[k] == m.ram[k]
        }),
{
    let head = m.run(rom, symbols, 2);
    assert(head == (Machine { a: locals, d: locals, pc: m.pc + 2, ram: m.ram })) by {
        reveal_with_fuel(Machine::run, 3);
    }
    lemma_clear_locals(locals, m.pc, locals as nat, head, rom, symbols);
    lemma_run_split(m, rom, symbols, 2, (10 * locals + 2) as nat);
    assert(2 + (10 * locals + 2) as nat == (10 * locals + 4) as nat);
    lemma_zeros_pushed(m.ram, locals as nat);
}

/// The instructions of the start-up sequence: the marker behind its call
/// takes no place.
pub open spec fn bootstrap_body(site: nat) -> Seq<Op> {
    blocks::set_stack_origin() + blocks::call_body(blocks::entry_point(), 0, site)
}

/// Running the start-up sequence, from whatever state, sets the stack
/// pointer to the stack's origin, puts the frame of a call without
/// arguments there, and passes control to the entry point.
pub proof fn law_bootstrap(site: nat, m: Machine, rom: Seq<Op>, symbols: Map<Seq<char>, int>)
    requires
        placed(rom, m.pc, bootstrap_body(site)),
    ensures
        ({
            let r = m.run(rom, symbols, 4 + blocks::CALL_LENGTH as nat);
            &&& r.pc == symbols[blocks::entry_point()]
            &&& r.sp() == blocks::STACK_ORIGIN + blocks::FRAME_WORDS
            &&& r.lcl() == blocks::STACK_ORIGIN + blocks::FRAME_WORDS
            &&& r.arg() == blocks::STACK_ORIGIN
            &&& r.ram[blocks::STACK_ORIGIN as int] == symbols[blocks::return_symbol(site)]
        }),
{
    lemma_placed_parts(
        rom,
        m.pc,
        blocks::set_stack_origin(),
        blocks::call_body(blocks::entry_point(), 0, site),
    );
    lemma_set_stack_origin(m, rom, symbols);
    let started = m.run(rom, symbols, 4);
    law_call(blocks::entry_point(), 0, site, started, rom, symbols);
    lemma_run_split(m, rom, symbols, 4, blocks::CALL_LENGTH as nat);
}

} // verus!
