//! The commands of the stack-machine language as closed sets of variants,
//! and the words that name them in source text.

use vstd::prelude::*;
use crate::lexer::texts;
use crate::text::{index_of, parse_index, same_text};

verus! {

/// Why a command cannot be translated.
#[derive(Clone, Copy, Debug, PartialEq, Eq, Structural)]
pub enum TranslateError {
    /// The command is not of the language: an unknown word, a wrong number
    /// of arguments, or an argument that is no index.
    MalformedCommand,
    /// The command names a memory segment and a direction for which no
    /// translation exists.
    UnsupportedOperation,
}

/// The nine arithmetic and logic operations on the stack.
#[derive(Clone, Copy, Debug, PartialEq, Eq, Structural)]
pub enum ArithOp {
    Add,
    Sub,
    Neg,
    Eq,
    Gt,
    Lt,
    And,
    Or,
    Not,
}

impl ArithOp {
    /// The operation that a word names, if any.
    pub open spec fn of(word: Seq<char>) -> Option<ArithOp> {
        if word == "add"@ {
            Some(ArithOp::Add)
        } else if word == "sub"@ {
            Some(ArithOp::Sub)
        } else if word == "neg"@ {
            Some(ArithOp::Neg)
        } else if word == "eq"@ {
            Some(ArithOp::Eq)
        } else if word == "gt"@ {
            Some(ArithOp::Gt)
        } else if word == "lt"@ {
            Some(ArithOp::Lt)
        } else if word == "and"@ {
            Some(ArithOp::And)
        } else if word == "or"@ {
            Some(ArithOp::Or)
        } else if word == "not"@ {
            Some(ArithOp::Not)
        } else {
            None
        }
    }

    /// Whether the operation takes two operands from the stack; the others
    /// take one.
    pub open spec fn is_binary(self) -> bool {
        !(self == ArithOp::Neg || self == ArithOp::Not)
    }

    /// Whether the operation is a relational test, which leaves a truth
    /// value.
    pub open spec fn is_comparison(self) -> bool {
        self == ArithOp::Eq || self == ArithOp::Gt || self == ArithOp::Lt
    }

    /// The operation that a word names, if any.
    pub fn parse(word: &str) -> (r: Option<ArithOp>)
        ensures
            r == ArithOp::of(word@),
    {
        if same_text(word, "add") {
            Some(ArithOp::Add)
        } else if same_text(word, "sub") {
            Some(ArithOp::Sub)
        } else if same_text(word, "neg") {
            Some(ArithOp::Neg)
        } else if same_text(word, "eq") {
            Some(ArithOp::Eq)
        } else if same_text(word, "gt") {
            Some(ArithOp::Gt)
        } else if same_text(word, "lt") {
            Some(ArithOp::Lt)
        } else if same_text(word, "and") {
            Some(ArithOp::And)
        } else if same_text(word, "or") {
            Some(ArithOp::Or)
        } else if same_text(word, "not") {
            Some(ArithOp::Not)
        } else {
            None
        }
    }
}

/// The eight memory segments that push and pop commands address.
#[derive(Clone, Copy, Debug, PartialEq, Eq, Structural)]
pub enum Segment {
    Constant,
    Local,
    Argument,
    This,
    That,
    Pointer,
    Temp,
    Static,
}

impl Segment {
    /// The segment that a word names, if any.
    pub open spec fn of(word: Seq<char>) -> Option<Segment> {
        if word == "constant"@ {
            Some(Segment::Constant)
        } else if word == "local"@ {
            Some(Segment::Local)
        } else if word == "argument"@ {
            Some(Segment::Argument)
        } else if word == "this"@ {
            Some(Segment::This)
        } else if word == "that"@ {
            Some(Segment::That)
        } else if word == "pointer"@ {
            Some(Segment::Pointer)
        } else if word == "temp"@ {
            Some(Segment::Temp)
        } else if word == "static"@ {
            Some(Segment::Static)
        } else {
            None
        }
    }

    /// The segment that a word names, if any.
    pub fn parse(word: &str) -> (r: Option<Segment>)
        ensures
            r == Segment::of(word@),
    {
        if same_text(word, "constant") {
            Some(Segment::Constant)
        } else if same_text(word, "local") {
            Some(Segment::Local)
        } else if same_text(word, "argument") {
            Some(Segment::Argument)
        } else if same_text(word, "this") {
            Some(Segment::This)
        } else if same_text(word, "that") {
            Some(Segment::That)
        } else if same_text(word, "pointer") {
            Some(Segment::Pointer)
        } else if same_text(word, "temp") {
            Some(Segment::Temp)
        } else if same_text(word, "static") {
            Some(Segment::Static)
        } else {
            None
        }
    }
}

/// Whether a memory command moves a value onto the stack or off it.
#[derive(Clone, Copy, Debug, PartialEq, Eq, Structural)]
pub enum Direction {
    Push,
    Pop,
}

impl Direction {
    /// The direction that a word names, if any.
    pub open spec fn of(word: Seq<char>) -> Option<Direction> {
        if word == "push"@ {
            Some(Direction::Push)
        } else if word == "pop"@ {
            Some(Direction::Pop)
        } else {
            None
        }
    }

    /// The direction that a word names, if any.
    pub fn parse(word: &str) -> (r: Option<Direction>)
        ensures
            r == Direction::of(word@),
    {
        if same_text(word, "push") {
            Some(Direction::Push)
        } else if same_text(word, "pop") {
            Some(Direction::Pop)
        } else {
            None
        }
    }
}

/// A command of the source language, as a mathematical value.
pub enum CommandView {
    Arithmetic(ArithOp),
    Push(Segment, int),
    Pop(Segment, int),
    Label(Seq<char>),
    Goto(Seq<char>),
    IfGoto(Seq<char>),
    Function(Seq<char>, int),
    Call(Seq<char>, int),
    Return,
}

/// A command of the source language.
#[derive(Debug, PartialEq, Eq)]
pub enum Command {
    /// An arithmetic or logic operation on the stack.
    Arithmetic(ArithOp),
    /// Push an entry of a segment.
    Push(Segment, i16),
    /// Pop into an entry of a segment.
    Pop(Segment, i16),
    /// Mark a place in the current function.
    Label(String),
    /// Jump to a label.
    Goto(String),
    /// Take the topmost value off the stack and jump to a label if it is
    /// not zero.
    IfGoto(String),
    /// Begin a function with a number of local variables.
    Function(String, i16),
    /// Call a function with a number of arguments.
    Call(String, i16),
    /// Return from the current function.
    Return,
}

impl View for Command {
    type V = CommandView;

    open spec fn view(&self) -> CommandView {
        match self {
            Command::Arithmetic(op) => CommandView::Arithmetic(*op),
            Command::Push(segment, index) => CommandView::Push(*segment, *index as int),
            Command::Pop(segment, index) => CommandView::Pop(*segment, *index as int),
            Command::Label(name) => CommandView::Label(name@),
            Command::Goto(name) => CommandView::Goto(name@),
            Command::IfGoto(name) => CommandView::IfGoto(name@),
            Command::Function(name, locals) => CommandView::Function(name@, *locals as int),
            Command::Call(name, args) => CommandView::Call(name@, *args as int),
            Command::Return => CommandView::Return,
        }
    }
}

/// The command that a line's words make, or the reason why they make
/// none. The first word decides the kind, and the number of words must be
/// what the kind asks for. A word in the place of an index or a count must
/// write one. The segment of a push or a pop must be one of the eight, and
/// a pop cannot go to `constant`.
pub open spec fn parse_command(words: Seq<Seq<char>>) -> Result<CommandView, TranslateError> {
    if words.len() == 0 {
        Err(TranslateError::MalformedCommand)
    } else if ArithOp::of(words[0]) is Some {
        if words.len() == 1 {
            Ok(CommandView::Arithmetic(ArithOp::of(words[0])->0))
        } else {
            Err(TranslateError::MalformedCommand)
        }
    } else if Direction::of(words[0]) is Some {
        if words.len() != 3 || index_of(words[2]) is None {
            Err(TranslateError::MalformedCommand)
        } else if Segment::of(words[1]) is None {
            Err(TranslateError::UnsupportedOperation)
        } else if Direction::of(words[0]) == Some(Direction::Push) {
            Ok(CommandView::Push(Segment::of(words[1])->0, index_of(words[2])->0))
        } else if Segment::of(words[1]) == Some(Segment::Constant) {
            Err(TranslateError::UnsupportedOperation)
        } else {
            Ok(CommandView::Pop(Segment::of(words[1])->0, index_of(words[2])->0))
        }
    } else if words[0] == "label"@ || words[0] == "goto"@ || words[0] == "if-goto"@ {
        if words.len() != 2 {
            Err(TranslateError::MalformedCommand)
        } else if words[0] == "label"@ {
            Ok(CommandView::Label(words[1]))
        } else if words[0] == "goto"@ {
            Ok(CommandView::Goto(words[1]))
        } else {
            Ok(CommandView::IfGoto(words[1]))
        }
    } else if words[0] == "function"@ || words[0] == "call"@ {
        if words.len() != 3 || index_of(words[2]) is None {
            Err(TranslateError::MalformedCommand)
        } else if words[0] == "function"@ {
            Ok(CommandView::Function(words[1], index_of(words[2])->0))
        } else {
            Ok(CommandView::Call(words[1], index_of(words[2])->0))
        }
    } else if words[0] == "return"@ && words.len() == 1 {
        Ok(CommandView::Return)
    } else {
        Err(TranslateError::MalformedCommand)
    }
}

impl Command {
    /// Whether the indices and counts of the command are not negative.
    pub open spec fn wf(&self) -> bool {
        match self {
            Command::Push(_, index) => *index >= 0,
            Command::Pop(_, index) => *index >= 0,
            Command::Function(_, locals) => *locals >= 0,
            Command::Call(_, args) => *args >= 0,
            _ => true,
        }
    }

    /// The command that a line's words make, or the reason why they make
    /// none.
    pub fn parse(words: &Vec<String>) -> (r: Result<Command, TranslateError>)
        ensures
            match parse_command(texts(words@)) {
                Ok(c) => r is Ok && r->Ok_0@ == c && r->Ok_0.wf(),
                Err(e) => r == Err::<Command, TranslateError>(e),
            },
    {
        let n = words.len();
        if n == 0 {
            return Err(TranslateError::MalformedCommand);
        }
        let first = words[0].as_str();
        assert(first@ == texts(words@)[0]);
        if let Some(op) = ArithOp::parse(first) {
            return if n == 1 {
                Ok(Command::Arithmetic(op))
            } else {
                Err(TranslateError::MalformedCommand)
            };
        }
        if let Some(direction) = Direction::parse(first) {
            if n != 3 {
                return Err(TranslateError::MalformedCommand);
            }
            assert(words@[1]@ == texts(words@)[1]);
            assert(words@[2]@ == texts(words@)[2]);
            let index = match parse_index(words[2].as_str()) {
                Some(index) => index,
                None => {
                    return Err(TranslateError::MalformedCommand);
                },
            };
            let segment = match Segment::parse(words[1].as_str()) {
                Some(segment) => segment,
                None => {
                    return Err(TranslateError::UnsupportedOperation);
                },
            };
            return match direction {
                Direction::Push => Ok(Command::Push(segment, index)),
                Direction::Pop => if segment == Segment::Constant {
                    Err(TranslateError::UnsupportedOperation)
                } else {
                    Ok(Command::Pop(segment, index))
                },
            };
        }
        let is_label = same_text(first, "label");
        let is_goto = same_text(first, "goto");
        let is_if = same_text(first, "if-goto");
        if is_label || is_goto || is_if {
            if n != 2 {
                return Err(TranslateError::MalformedCommand);
            }
            assert(words@[1]@ == texts(words@)[1]);
            let name = words[1].clone();
            return if is_label {
                Ok(Command::Label(name))
            } else if is_goto {
                Ok(Command::Goto(name))
            } else {
                Ok(Command::IfGoto(name))
            };
        }
        let is_function = same_text(first, "function");
        let is_call = same_text(first, "call");
        if is_function || is_call {
            if n != 3 {
                return Err(TranslateError::MalformedCommand);
            }
            assert(words@[1]@ == texts(words@)[1]);
            assert(words@[2]@ == texts(words@)[2]);
            let count = match parse_index(words[2].as_str()) {
                Some(count) => count,
                None => {
                    return Err(TranslateError::MalformedCommand);
                },
            };
            let name = words[1].clone();
            return if is_function {
                Ok(Command::Function(name, count))
            } else {
                Ok(Command::Call(name, count))
            };
        }
        if same_text(first, "return") && n == 1 {
            Ok(Command::Return)
        } else {
            Err(TranslateError::MalformedCommand)
        }
    }
}

} // verus!
