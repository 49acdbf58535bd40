//! The target machine as a mathematical model: two registers, a program
//! counter and a memory of words, and what one instruction does to them.

use vstd::prelude::*;
use crate::instruction::{Comp, Dest, Jump, Op};
use crate::word::{bit_and, bit_not, bit_or, wrap};

verus! {

/// The state of the machine.
pub struct Machine {
    /// The address register.
    pub a: int,
    /// The data register.
    pub d: int,
    /// The position in the program memory of the next instruction.
    pub pc: int,
    /// The data memory: the word at each address.
    pub ram: Map<int, int>,
}

/// Whether a jump with condition `jump` is taken on the computed value `v`.
pub open spec fn taken(jump: Jump, v: int) -> bool {
    match jump {
        Jump::Null => false,
        Jump::Jeq => v == 0,
        Jump::Jgt => v > 0,
        Jump::Jlt => v < 0,
        Jump::Jne => v != 0,
        Jump::Jmp => true,
    }
}

impl Machine {
    /// The word in the cell that the address register points at.
    pub open spec fn m(self) -> int {
        self.ram[self.a]
    }

    /// The value of a computation in this state.
    pub open spec fn value(self, comp: Comp) -> int {
        match comp {
            Comp::Zero => 0,
            Comp::MinusOne => -1,
            Comp::D => self.d,
            Comp::A => self.a,
            Comp::M => self.m(),
            Comp::NotM => bit_not(self.m()),
            Comp::DPlusOne => wrap(self.d + 1),
            Comp::MPlusOne => wrap(self.m() + 1),
            Comp::DMinusOne => wrap(self.d - 1),
            Comp::MMinusOne => wrap(self.m() - 1),
            Comp::DPlusA => wrap(self.d + self.a),
            Comp::DPlusM => wrap(self.d + self.m()),
            Comp::DMinusA => wrap(self.d - self.a),
            Comp::MMinusD => wrap(self.m() - self.d),
            Comp::MAndD => bit_and(self.m(), self.d),
            Comp::MOrD => bit_or(self.m(), self.d),
        }
    }

    /// The state after storing `v` in the destination `dest`. The cell
    /// written to is the one that the address register pointed at before.
    pub open spec fn store(self, dest: Dest, v: int) -> Machine {
        match dest {
            Dest::Null => self,
            Dest::A => Machine { a: v, ..self },
            Dest::D => Machine { d: v, ..self },
            Dest::M => Machine { ram: self.ram.insert(self.a, v), ..self },
            Dest::AM => Machine { a: v, ram: self.ram.insert(self.a, v), ..self },
        }
    }

    /// The state after the instruction at the program counter. `symbols`
    /// gives the address that each symbol stands for. Outside the program
    /// the machine stays as it is.
    pub open spec fn step(self, rom: Seq<Op>, symbols: Map<Seq<char>, int>) -> Machine {
        if 0 <= self.pc < rom.len() {
            match rom[self.pc] {
                Op::Literal(n) => Machine { a: n, pc: self.pc + 1, ..self },
                Op::Register(reg) => Machine { a: reg.address(), pc: self.pc + 1, ..self },
                Op::Symbol(name) => Machine { a: symbols[name], pc: self.pc + 1, ..self },
                Op::Compute(dest, comp, jump) => {
                    let v = self.value(comp);
                    let next = if taken(jump, v) {
                        self.a
                    } else {
                        self.pc + 1
                    };
                    Machine { pc: next, ..self.store(dest, v) }
                },
                Op::Label(_) => self,
            }
        } else {
            self
        }
    }

    /// The state after `n` instructions.
    pub open spec fn run(self, rom: Seq<Op>, symbols: Map<Seq<char>, int>, n: nat) -> Machine
        decreases n,
    {
        if n == 0 {
            self
        } else {
            self.step(rom, symbols).run(rom, symbols, (n - 1) as nat)
        }
    }

    /// The stack pointer.
    pub open spec fn sp(self) -> int {
        self.ram[0]
    }

    /// The base of the local variables.
    pub open spec fn lcl(self) -> int {
        self.ram[1]
    }

    /// The base of the arguments.
    pub open spec fn arg(self) -> int {
        self.ram[2]
    }

    /// The base of the `this` segment.
    pub open spec fn this(self) -> int {
        self.ram[3]
    }

    /// The base of the `that` segment.
    pub open spec fn that(self) -> int {
        self.ram[4]
    }

    /// The topmost value of the stack.
    pub open spec fn top(self) -> int {
        self.ram[self.sp() - 1]
    }
}

/// Running `a + b` instructions is running `a` and then `b`.
pub proof fn lemma_run_split(
    m: Machine,
    rom: Seq<Op>,
    symbols: Map<Seq<char>, int>,
    a: nat,
    b: nat,
)
    ensures
        m.run(rom, symbols, a + b) == m.run(rom, symbols, a).run(rom, symbols, b),
    decreases a,
{
    if a > 0 {
        lemma_run_split(m.step(rom, symbols), rom, symbols, (a - 1) as nat, b);
        assert(((a + b) - 1) as nat == (a - 1) as nat + b);
    }
}

/// Whether the instructions of `block` stand in the program memory from
/// position `base` on.
pub open spec fn placed(rom: Seq<Op>, base: int, block: Seq<Op>) -> bool {
    &&& 0 <= base
    &&& base + block.len() <= rom.len()
    &&& forall|j: int| base <= j < base + block.len() ==> #[trigger] rom[j] == block[j - base]
}

/// Where a block stands, so does each of two parts that it is made of.
pub proof fn lemma_placed_parts(rom: Seq<Op>, base: int, first: Seq<Op>, second: Seq<Op>)
    requires
        placed(rom, base, first + second),
    ensures
        placed(rom, base, first),
        placed(rom, base + first.len(), second),
{
    assert forall|j: int| base <= j < base + first.len() implies #[trigger] rom[j] == first[j
        - base] by {
        assert((first + second)[j - base] == first[j - base]);
    }
    assert forall|j: int|
        base + first.len() <= j < base + first.len() + second.len() implies #[trigger] rom[j]
        == second[j - (base + first.len())] by {
        assert((first + second)[j - base] == second[j - base - first.len()]);
    }
}

} // verus!
