//! The target instruction set: address loads, computations with an optional
//! destination and jump, and label markers, together with their text.

use vstd::prelude::*;
use crate::text::{decimal, push_decimal};

verus! {

/// A memory cell that the target language knows by name.
#[derive(Clone, Copy, Debug, PartialEq, Eq, Structural)]
pub enum Reg {
    /// The stack pointer.
    Sp,
    /// Base of the current function's local variables.
    Lcl,
    /// Base of the current function's arguments.
    Arg,
    /// Base of the `this` segment.
    This,
    /// Base of the `that` segment.
    That,
    /// First scratch cell.
    R13,
    /// Second scratch cell.
    R14,
}

impl Reg {
    /// The address of the cell.
    pub open spec fn address(self) -> int {
        match self {
            Reg::Sp => 0,
            Reg::Lcl => 1,
            Reg::Arg => 2,
            Reg::This => 3,
            Reg::That => 4,
            Reg::R13 => 13,
            Reg::R14 => 14,
        }
    }

    /// The name under which the cell is written.
    pub open spec fn name(self) -> Seq<char> {
        match self {
            Reg::Sp => "SP"@,
            Reg::Lcl => "LCL"@,
            Reg::Arg => "ARG"@,
            Reg::This => "THIS"@,
            Reg::That => "THAT"@,
            Reg::R13 => "R13"@,
            Reg::R14 => "R14"@,
        }
    }

    /// The name under which the cell is written.
    pub fn name_str(self) -> (s: &'static str)
        ensures
            s@ == self.name(),
    {
        match self {
            Reg::Sp => "SP",
            Reg::Lcl => "LCL",
            Reg::Arg => "ARG",
            Reg::This => "THIS",
            Reg::That => "THAT",
            Reg::R13 => "R13",
            Reg::R14 => "R14",
        }
    }
}

/// Where a computation stores its value.
#[derive(Clone, Copy, Debug, PartialEq, Eq, Structural)]
pub enum Dest {
    /// Nowhere: the value only steers a jump.
    Null,
    /// The address register.
    A,
    /// The data register.
    D,
    /// The memory cell that the address register points at.
    M,
    /// The address register and the memory cell it pointed at.
    AM,
}

impl Dest {
    /// The destination as written before the `=` sign.
    pub open spec fn name(self) -> Seq<char> {
        match self {
            Dest::Null => Seq::<char>::empty(),
            Dest::A => "A"@,
            Dest::D => "D"@,
            Dest::M => "M"@,
            Dest::AM => "AM"@,
        }
    }

    /// The destination as written before the `=` sign.
    pub fn name_str(self) -> (s: &'static str)
        ensures
            s@ == self.name(),
    {
        proof {
            reveal_strlit("");
        }
        let s = match self {
            Dest::Null => "",
            Dest::A => "A",
            Dest::D => "D",
            Dest::M => "M",
            Dest::AM => "AM",
        };
        assert(self == Dest::Null ==> s@ =~= Seq::<char>::empty());
        s
    }
}

/// The value that a computation produces from the two registers and the
/// addressed memory cell.
#[derive(Clone, Copy, Debug, PartialEq, Eq, Structural)]
pub enum Comp {
    /// The constant 0.
    Zero,
    /// The constant -1.
    MinusOne,
    /// The data register.
    D,
    /// The address register.
    A,
    /// The addressed cell.
    M,
    /// Bitwise complement of the addressed cell.
    NotM,
    /// The data register plus one.
    DPlusOne,
    /// The addressed cell plus one.
    MPlusOne,
    /// The data register minus one.
    DMinusOne,
    /// The addressed cell minus one.
    MMinusOne,
    /// Sum of the two registers.
    DPlusA,
    /// Sum of the data register and the addressed cell.
    DPlusM,
    /// The data register minus the address register.
    DMinusA,
    /// The addressed cell minus the data register.
    MMinusD,
    /// Bitwise and of the addressed cell and the data register.
    MAndD,
    /// Bitwise or of the addressed cell and the data register.
    MOrD,
}

impl Comp {
    /// The computation as written.
    pub open spec fn name(self) -> Seq<char> {
        match self {
            Comp::Zero => "0"@,
            Comp::MinusOne => "-1"@,
            Comp::D => "D"@,
            Comp::A => "A"@,
            Comp::M => "M"@,
            Comp::NotM => "!M"@,
            Comp::DPlusOne => "D+1"@,
            Comp::MPlusOne => "M+1"@,
            Comp::DMinusOne => "D-1"@,
            Comp::MMinusOne => "M-1"@,
            Comp::DPlusA => "D+A"@,
            Comp::DPlusM => "D+M"@,
            Comp::DMinusA => "D-A"@,
            Comp::MMinusD => "M-D"@,
            Comp::MAndD => "M&D"@,
            Comp::MOrD => "M|D"@,
        }
    }

    /// The computation as written.
    pub fn name_str(self) -> (s: &'static str)
        ensures
            s@ == self.name(),
    {
        match self {
            Comp::Zero => "0",
            Comp::MinusOne => "-1",
            Comp::D => "D",
            Comp::A => "A",
            Comp::M => "M",
            Comp::NotM => "!M",
            Comp::DPlusOne => "D+1",
            Comp::MPlusOne => "M+1",
            Comp::DMinusOne => "D-1",
            Comp::MMinusOne => "M-1",
            Comp::DPlusA => "D+A",
            Comp::DPlusM => "D+M",
            Comp::DMinusA => "D-A",
            Comp::MMinusD => "M-D",
            Comp::MAndD => "M&D",
            Comp::MOrD => "M|D",
        }
    }
}

/// The condition on the computed value under which control moves to the
/// address held in the address register.
#[derive(Clone, Copy, Debug, PartialEq, Eq, Structural)]
pub enum Jump {
    /// Never: control goes on with the next instruction.
    Null,
    /// The value is zero.
    Jeq,
    /// The value is positive.
    Jgt,
    /// The value is negative.
    Jlt,
    /// The value is not zero.
    Jne,
    /// Always.
    Jmp,
}

impl Jump {
    /// The condition as written after the `;` sign.
    pub open spec fn name(self) -> Seq<char> {
        match self {
            Jump::Null => Seq::<char>::empty(),
            Jump::Jeq => "JEQ"@,
            Jump::Jgt => "JGT"@,
            Jump::Jlt => "JLT"@,
            Jump::Jne => "JNE"@,
            Jump::Jmp => "JMP"@,
        }
    }

    /// The condition as written after the `;` sign.
    pub fn name_str(self) -> (s: &'static str)
        ensures
            s@ == self.name(),
    {
        proof {
            reveal_strlit("");
        }
        let s = match self {
            Jump::Null => "",
            Jump::Jeq => "JEQ",
            Jump::Jgt => "JGT",
            Jump::Jlt => "JLT",
            Jump::Jne => "JNE",
            Jump::Jmp => "JMP",
        };
        assert(self == Jump::Null ==> s@ =~= Seq::<char>::empty());
        s
    }
}

/// One line of the target program, as a mathematical value.
pub enum Op {
    /// Load a number into the address register.
    Literal(int),
    /// Load the address of a named cell into the address register.
    Register(Reg),
    /// Load the address that a symbol stands for into the address register.
    Symbol(Seq<char>),
    /// Compute a value, store it and possibly jump.
    Compute(Dest, Comp, Jump),
    /// Mark the position of the next instruction with a name. A label is
    /// no instruction and takes no place in the program memory.
    Label(Seq<char>),
}

impl Op {
    /// Whether the line is a label marker rather than an instruction.
    pub open spec fn is_label(self) -> bool {
        self is Label
    }

    /// The text of the line.
    pub open spec fn text(self) -> Seq<char> {
        match self {
            Op::Literal(n) => "@"@ + decimal(n as nat),
            Op::Register(r) => "@"@ + r.name(),
            Op::Symbol(s) => "@"@ + s,
            Op::Compute(dest, comp, jump) => {
                let left = if dest == Dest::Null {
                    Seq::<char>::empty()
                } else {
                    dest.name() + "="@
                };
                let right = if jump == Jump::Null {
                    Seq::<char>::empty()
                } else {
                    ";"@ + jump.name()
                };
                left + comp.name() + right
            },
            Op::Label(s) => "("@ + s + ")"@,
        }
    }
}

/// One line of the target program.
#[derive(Debug, PartialEq, Eq)]
pub enum Instr {
    /// `@n`: load a number into the address register.
    Literal(usize),
    /// `@SP` and the like: load the address of a named cell.
    Register(Reg),
    /// `@name`: load the address that a symbol stands for.
    Symbol(String),
    /// `dest=comp;jump`, where destination and jump may be absent.
    Compute(Dest, Comp, Jump),
    /// `(name)`: mark the position of the next instruction.
    Label(String),
}

impl View for Instr {
    type V = Op;

    open spec fn view(&self) -> Op {
        match self {
            Instr::Literal(n) => Op::Literal(*n as int),
            Instr::Register(r) => Op::Register(*r),
            Instr::Symbol(s) => Op::Symbol(s@),
            Instr::Compute(dest, comp, jump) => Op::Compute(*dest, *comp, *jump),
            Instr::Label(s) => Op::Label(s@),
        }
    }
}

impl Instr {
    /// Whether the line is a label marker rather than an instruction.
    pub fn is_label(&self) -> (r: bool)
        ensures
            r == self@.is_label(),
    {
        match self {
            Instr::Label(_) => true,
            _ => false,
        }
    }

    /// The text of the line, without a line terminator.
    pub fn render(&self) -> (s: String)
        ensures
            s@ == self@.text(),
    {
        match self {
            Instr::Literal(n) => {
                let mut s = String::from_str("@");
                push_decimal(&mut s, *n);
                s
            },
            Instr::Register(r) => {
                let mut s = String::from_str("@");
                s.append(r.name_str());
                s
            },
            Instr::Symbol(name) => {
                let mut s = String::from_str("@");
                s.append(name.as_str());
                s
            },
            Instr::Compute(dest, comp, jump) => {
                let mut s = String::new();
                if *dest != Dest::Null {
                    s.append(dest.name_str());
                    s.append("=");
                }
                s.append(comp.name_str());
                if *jump != Jump::Null {
                    s.append(";");
                    s.append(jump.name_str());
                }
                assert(s@ =~= self@.text());
                s
            },
            Instr::Label(name) => {
                let mut s = String::from_str("(");
                s.append(name.as_str());
                s.append(")");
                s
            },
        }
    }
}

} // verus!
