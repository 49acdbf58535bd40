//! The command source: it holds the commands of one source file, each as
//! the words of its line, and hands them out one at a time.

use vstd::prelude::*;
use crate::command::{parse_command, ArithOp, Command, TranslateError};
use crate::lexer::{line_words, texts, tokenize};
use crate::text::{index_of, parse_index, same_text};

verus! {

/// The kinds of commands.
#[derive(Clone, Copy, Debug, PartialEq, Eq, Structural)]
pub enum CommandType {
    Arithmetic,
    Push,
    Pop,
    Label,
    Goto,
    If,
    Function,
    Return,
    Call,
}

impl CommandType {
    /// The kind of command that begins with `word`, if any.
    pub open spec fn of(word: Seq<char>) -> Option<CommandType> {
        if ArithOp::of(word) is Some {
            Some(CommandType::Arithmetic)
        } else if word == "push"@ {
            Some(CommandType::Push)
        } else if word == "pop"@ {
            Some(CommandType::Pop)
        } else if word == "label"@ {
            Some(CommandType::Label)
        } else if word == "goto"@ {
            Some(CommandType::Goto)
        } else if word == "if-goto"@ {
            Some(CommandType::If)
        } else if word == "function"@ {
            Some(CommandType::Function)
        } else if word == "return"@ {
            Some(CommandType::Return)
        } else if word == "call"@ {
            Some(CommandType::Call)
        } else {
            None
        }
    }

    /// Whether a command of this kind carries an index or a count as its
    /// second argument.
    pub open spec fn has_index(self) -> bool {
        self == CommandType::Push || self == CommandType::Pop || self == CommandType::Function
            || self == CommandType::Call
    }

    /// The kind of command that begins with `word`, if any.
    pub fn parse(word: &str) -> (r: Option<CommandType>)
        ensures
            r == CommandType::of(word@),
    {
        if ArithOp::parse(word).is_some() {
            Some(CommandType::Arithmetic)
        } else if same_text(word, "push") {
            Some(CommandType::Push)
        } else if same_text(word, "pop") {
            Some(CommandType::Pop)
        } else if same_text(word, "label") {
            Some(CommandType::Label)
        } else if same_text(word, "goto") {
            Some(CommandType::Goto)
        } else if same_text(word, "if-goto") {
            Some(CommandType::If)
        } else if same_text(word, "function") {
            Some(CommandType::Function)
        } else if same_text(word, "return") {
            Some(CommandType::Return)
        } else if same_text(word, "call") {
            Some(CommandType::Call)
        } else {
            None
        }
    }
}

/// The commands of a source file from line `from` on, in the order of the
/// lines: for each line that has words, the number of the line, counted
/// from one, and its words. Lines that are blank or hold a comment only
/// give no command.
pub open spec fn commands_from(lines: Seq<Seq<char>>, from: int) -> Seq<(int, Seq<Seq<char>>)>
    decreases lines.len() - from,
{
    if from < 0 || from >= lines.len() {
        Seq::<(int, Seq<Seq<char>>)>::empty()
    } else if line_words(lines[from]).len() == 0 {
        commands_from(lines, from + 1)
    } else {
        seq![(from + 1, line_words(lines[from]))] + commands_from(lines, from + 1)
    }
}

/// The commands of a source file, given as its lines.
pub open spec fn commands_of(lines: Seq<Seq<char>>) -> Seq<(int, Seq<Seq<char>>)> {
    commands_from(lines, 0)
}

/// The kind of the command that consists of `words`, if its first word
/// names one.
pub open spec fn kind_of(words: Seq<Seq<char>>) -> Option<CommandType> {
    if words.len() == 0 {
        None
    } else {
        CommandType::of(words[0])
    }
}

/// A command source.
pub struct Parser {
    commands: Vec<(usize, Vec<String>)>,
    current_cmd: Vec<String>,
    current_line: usize,
}

impl Parser {
    /// The commands not yet handed out, in the order of the source, each
    /// with the number of its line.
    pub closed spec fn pending(&self) -> Seq<(int, Seq<Seq<char>>)> {
        Seq::new(
            self.commands@.len(),
            |i: int|
                {
                    let entry = self.commands@[self.commands@.len() - 1 - i];
                    (entry.0 as int, texts(entry.1@))
                },
        )
    }

    /// The words of the current command; none before the first command
    /// was handed out.
    pub closed spec fn current(&self) -> Seq<Seq<char>> {
        texts(self.current_cmd@)
    }

    /// The number of the line of the current command, counted from one;
    /// zero before the first command was handed out.
    pub closed spec fn current_line(&self) -> int {
        self.current_line as int
    }

    /// A source of the commands of a file, given as the file's lines.
    pub fn new(lines: &Vec<String>) -> (p: Parser)
        ensures
            p.pending() == commands_of(texts(lines@)),
            p.current() == Seq::<Seq<char>>::empty(),
            p.current_line() == 0,
    {
        let ghost source = texts(lines@);
        let mut p = Parser { commands: Vec::new(), current_cmd: Vec::new(), current_line: 0 };
        let mut i: usize = lines.len();
        assert(p.pending() =~= commands_from(source, i as int));
        while i > 0
            invariant
                i <= lines@.len(),
                source == texts(lines@),
                p.pending() == commands_from(source, i as int),
                p.current_cmd@.len() == 0,
                p.current_line == 0,
            decreases i,
        {
            i -= 1;
            let ghost before = p.pending();
            let found = tokenize(lines[i].as_str());
            assert(texts(found@) == line_words(source[i as int]));
            if found.len() > 0 {
                p.commands.push((i + 1, found));
                assert(p.pending() =~= seq![(i + 1, line_words(source[i as int]))] + before);
            }
        }
        assert(p.current() =~= Seq::<Seq<char>>::empty());
        p
    }

    /// Whether a command is left to hand out.
    pub fn has_more_commands(&mut self) -> (more: bool)
        ensures
            more == (old(self).pending().len() > 0),
            *final(self) == *old(self),
    {
        self.commands.len() > 0
    }

    /// Makes the next command the current one.
    pub fn advance(&mut self)
        requires
            old(self).pending().len() > 0,
        ensures
            final(self).current_line() == old(self).pending()[0].0,
            final(self).current() == old(self).pending()[0].1,
            final(self).pending() == old(self).pending().drop_first(),
    {
        let ghost before = self.pending();
        let (line, words) = self.commands.pop().unwrap();
        self.current_line = line;
        self.current_cmd = words;
        assert(self.pending() =~= before.drop_first());
    }

    /// The kind of the current command.
    pub fn command_type(&self) -> (kind: CommandType)
        requires
            kind_of(self.current()) is Some,
        ensures
            Some(kind) == kind_of(self.current()),
    {
        CommandType::parse(self.current_cmd[0].as_str()).unwrap()
    }

    /// The kind of the current command, if its first word names one.
    pub fn try_command_type(&self) -> (kind: Option<CommandType>)
        ensures
            kind == kind_of(self.current()),
    {
        if self.current_cmd.len() == 0 {
            None
        } else {
            CommandType::parse(self.current_cmd[0].as_str())
        }
    }

    /// The number of the line of the current command, counted from one.
    pub fn line_number(&self) -> (line: usize)
        ensures
            line == self.current_line(),
    {
        self.current_line
    }

    /// The words of the current command.
    pub fn current_words(&self) -> (words: &Vec<String>)
        ensures
            texts(words@) == self.current(),
    {
        &self.current_cmd
    }

    /// The current command, if its words make one.
    pub fn command(&self) -> (r: Result<Command, TranslateError>)
        ensures
            match parse_command(self.current()) {
                Ok(c) => r is Ok && r->Ok_0@ == c && r->Ok_0.wf(),
                Err(e) => r == Err::<Command, TranslateError>(e),
            },
    {
        Command::parse(&self.current_cmd)
    }

    /// The first argument of the current command: for an arithmetic
    /// command the command's own word, for the others the word that
    /// follows it. A `return` command has none.
    pub fn arg1(&self) -> (arg: String)
        requires
            kind_of(self.current()) is Some,
            kind_of(self.current()) != Some(CommandType::Return),
            kind_of(self.current()) != Some(CommandType::Arithmetic) ==> self.current().len() >= 2,
        ensures
            arg@ == if kind_of(self.current()) == Some(CommandType::Arithmetic) {
                self.current()[0]
            } else {
                self.current()[1]
            },
    {
        if self.command_type() == CommandType::Arithmetic {
            self.current_cmd[0].clone()
        } else {
            self.current_cmd[1].clone()
        }
    }

    /// The second argument of the current command: the index of a push or
    /// a pop, the number of local variables of a function, the number of
    /// arguments of a call. Other commands have none.
    pub fn arg2(&self) -> (arg: i16)
        requires
            kind_of(self.current()) is Some,
            kind_of(self.current())->0.has_index(),
            self.current().len() >= 3,
            index_of(self.current()[2]) is Some,
        ensures
            arg == index_of(self.current()[2])->0,
            arg >= 0,
    {
        parse_index(self.current_cmd[2].as_str()).unwrap()
    }
}

} // verus!
