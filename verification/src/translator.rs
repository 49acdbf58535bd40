//! Translation of whole commands, files and programs: the generator is
//! handed the commands of each source file in turn, between the start-up
//! sequence and the final one.

use vstd::prelude::*;
use crate::blocks;
use crate::code_writer::{lemma_code_concat, CodeWriter, State};
use crate::command::{parse_command, Command, CommandView, TranslateError};
use crate::lexer::texts;
use crate::parser::{commands_of, Parser};

verus! {

/// A command that could not be translated, as a mathematical value: the
/// reason, the number of the command's line, and the words of the command.
pub struct FailureView {
    pub error: TranslateError,
    pub line: int,
    pub command: Seq<Seq<char>>,
}

/// A command that could not be translated.
#[derive(Debug, PartialEq, Eq)]
pub struct Failure {
    /// Why the command could not be translated.
    pub error: TranslateError,
    /// The number of the line that holds the command, counted from one.
    pub line: usize,
    /// The words of the command.
    pub command: Vec<String>,
}

impl View for Failure {
    type V = FailureView;

    open spec fn view(&self) -> FailureView {
        FailureView { error: self.error, line: self.line as int, command: texts(self.command@) }
    }
}

/// A command of a program that could not be translated, as a mathematical
/// value.
pub struct ProgramFailureView {
    pub file: int,
    pub failure: FailureView,
}

/// A command of a program that could not be translated.
#[derive(Debug, PartialEq, Eq)]
pub struct ProgramFailure {
    /// The number of the source file that holds the command, counted from
    /// zero.
    pub file: usize,
    /// The command and the reason.
    pub failure: Failure,
}

impl View for ProgramFailure {
    type V = ProgramFailureView;

    open spec fn view(&self) -> ProgramFailureView {
        ProgramFailureView { file: self.file as int, failure: self.failure@ }
    }
}

/// What the words of a command come to in the state `state`: the state
/// after the command's translation, or the reason why it has none.
pub open spec fn outcome(state: State, words: Seq<Seq<char>>) -> Result<State, TranslateError> {
    match parse_command(words) {
        Err(e) => Err(e),
        Ok(command) => state.translate(command),
    }
}

impl State {
    /// The state after translating a command, or the reason why the
    /// command has no translation.
    pub open spec fn translate(self, command: CommandView) -> Result<State, TranslateError> {
        match command {
            CommandView::Arithmetic(op) => Ok(self.arithmetic(op)),
            CommandView::Push(segment, index) => Ok(self.push(segment, index)),
            CommandView::Pop(segment, index) => if State::can_pop(segment) {
                Ok(self.pop(segment, index))
            } else {
                Err(TranslateError::UnsupportedOperation)
            },
            CommandView::Label(name) => Ok(self.label(name)),
            CommandView::Goto(name) => Ok(self.goto(name)),
            CommandView::IfGoto(name) => Ok(self.if_goto(name)),
            CommandView::Function(name, locals) => Ok(self.function(name, locals)),
            CommandView::Call(name, args) => Ok(self.call(name, args)),
            CommandView::Return => Ok(self.ret()),
        }
    }

    /// The state after translating commands, each given as the number of
    /// its line and its words, in order, up to the first that cannot be
    /// translated; and that command with the reason, if there is one.
    pub open spec fn translate_all(self, commands: Seq<(int, Seq<Seq<char>>)>) -> (
        State,
        Option<FailureView>,
    )
        decreases commands.len(),
    {
        if commands.len() == 0 {
            (self, None)
        } else {
            match outcome(self, commands[0].1) {
                Err(error) => (
                    self,
                    Some(FailureView { error, line: commands[0].0, command: commands[0].1 }),
                ),
                Ok(next) => next.translate_all(commands.drop_first()),
            }
        }
    }

    /// The state after translating the source file named `stem` with the
    /// lines `lines`.
    pub open spec fn translate_file(self, stem: Seq<char>, lines: Seq<Seq<char>>) -> (
        State,
        Option<FailureView>,
    ) {
        self.with_file(stem).translate_all(commands_of(lines))
    }

    /// The state after translating the source files from number `from` on,
    /// each given as its name and its lines, up to the first command that
    /// cannot be translated.
    pub open spec fn translate_files(
        self,
        files: Seq<(Seq<char>, Seq<Seq<char>>)>,
        from: int,
    ) -> (State, Option<ProgramFailureView>)
        decreases files.len() - from,
    {
        if from < 0 || from >= files.len() {
            (self, None)
        } else {
            let (next, failed) = self.translate_file(files[from].0, files[from].1);
            match failed {
                Some(failure) => (next, Some(ProgramFailureView { file: from, failure })),
                None => next.translate_files(files, from + 1),
            }
        }
    }
}

/// Translation only ever appends: whatever command is translated, the
/// lines written before stay as they are and in place, the count of
/// instructions does not go down, the number of call sites does not go
/// down, and the source file stays the same.
pub proof fn law_append_only(state: State, command: CommandView)
    requires
        state.translate(command) is Ok,
    ensures
        extends(state, state.translate(command)->Ok_0),
        state.translate(command)->Ok_0.file == state.file,
{
    let next = state.translate(command)->Ok_0;
    let added = next.lines.subrange(state.lines.len() as int, next.lines.len() as int);
    assert(next.lines =~= state.lines + added);
    assert(next.lines.subrange(0, state.lines.len() as int) =~= state.lines);
    lemma_code_concat(state.lines, added);
}

/// Whether `later` is a state that translation can lead to from `earlier`:
/// it holds the lines of `earlier` at its start, and neither the count of
/// instructions nor the number of call sites is lower.
pub open spec fn extends(earlier: State, later: State) -> bool {
    &&& earlier.lines.len() <= later.lines.len()
    &&& later.lines.subrange(0, earlier.lines.len() as int) == earlier.lines
    &&& earlier.count() <= later.count()
    &&& earlier.calls <= later.calls
}

/// A state that extends one that extends a third extends the third.
proof fn lemma_extends_twice(a: State, b: State, c: State)
    requires
        extends(a, b),
        extends(b, c),
    ensures
        extends(a, c),
{
    assert(c.lines.subrange(0, a.lines.len() as int) =~= b.lines.subrange(
        0,
        a.lines.len() as int,
    ));
}

/// Translating the commands of a file only appends, whether all of them
/// can be translated or not.
pub proof fn law_commands_append(state: State, commands: Seq<(int, Seq<Seq<char>>)>)
    ensures
        extends(state, state.translate_all(commands).0),
        state.translate_all(commands).0.file == state.file,
    decreases commands.len(),
{
    if commands.len() == 0 {
        assert(state.lines.subrange(0, state.lines.len() as int) =~= state.lines);
    } else {
        match outcome(state, commands[0].1) {
            Err(_) => {
                assert(state.lines.subrange(0, state.lines.len() as int) =~= state.lines);
            },
            Ok(next) => {
                law_append_only(state, parse_command(commands[0].1)->Ok_0);
                law_commands_append(next, commands.drop_first());
                lemma_extends_twice(state, next, next.translate_all(commands.drop_first()).0);
            },
        }
    }
}

/// Translating source files only appends.
pub proof fn law_files_append(state: State, files: Seq<(Seq<char>, Seq<Seq<char>>)>, from: int)
    ensures
        extends(state, state.translate_files(files, from).0),
    decreases files.len() - from,
{
    if from < 0 || from >= files.len() {
        assert(state.lines.subrange(0, state.lines.len() as int) =~= state.lines);
    } else {
        let (next, failed) = state.translate_file(files[from].0, files[from].1);
        law_commands_append(state.with_file(files[from].0), commands_of(files[from].1));
        if failed is None {
            law_files_append(next, files, from + 1);
            lemma_extends_twice(state, next, next.translate_files(files, from + 1).0);
        }
    }
}

/// A translated program begins with the start-up sequence, written once as
/// call site 0, and ends with the final sequence, whose jump goes to
/// itself.
pub proof fn law_program_frame(files: Seq<(Seq<char>, Seq<Seq<char>>)>)
    requires
        program_of(files) is Ok,
    ensures
        ({
            let program = program_of(files)->Ok_0;
            let start = blocks::bootstrap(0);
            let body = State::initial().bootstrap().translate_files(files, 0).0;
            &&& program.lines.len() >= start.len() + 2
            &&& program.lines.subrange(0, start.len() as int) == start
            &&& program.lines.subrange(program.lines.len() - 2, program.lines.len() as int)
                == blocks::halt(body.count())
            &&& program.calls >= 1
        }),
{
    let program = program_of(files)->Ok_0;
    let start = blocks::bootstrap(0);
    let booted = State::initial().bootstrap();
    let body = booted.translate_files(files, 0).0;
    law_files_append(booted, files, 0);
    assert(booted.lines =~= start);
    assert(program.lines =~= body.lines + blocks::halt(body.count()));
    assert(program.lines.subrange(0, start.len() as int) =~= body.lines.subrange(
        0,
        start.len() as int,
    ));
    assert(program.lines.subrange(program.lines.len() - 2, program.lines.len() as int)
        =~= blocks::halt(body.count()));
}

/// The program that a sequence of source files is translated to: the
/// start-up sequence, the translation of each file's commands, and the
/// final sequence; or the first command that cannot be translated.
pub open spec fn program_of(files: Seq<(Seq<char>, Seq<Seq<char>>)>) -> Result<
    State,
    ProgramFailureView,
> {
    let (state, failed) = State::initial().bootstrap().translate_files(files, 0);
    match failed {
        None => Ok(state.halt()),
        Some(failure) => Err(failure),
    }
}

/// A source file: its name without extension, and its lines.
pub struct SourceFile {
    pub stem: String,
    pub lines: Vec<String>,
}

impl View for SourceFile {
    type V = (Seq<char>, Seq<Seq<char>>);

    open spec fn view(&self) -> (Seq<char>, Seq<Seq<char>>) {
        (self.stem@, texts(self.lines@))
    }
}

/// The source files of a sequence as mathematical values.
pub open spec fn sources(files: Seq<SourceFile>) -> Seq<(Seq<char>, Seq<Seq<char>>)> {
    Seq::new(files.len(), |i: int| files[i]@)
}

/// A copy of a sequence of strings.
fn copy_of(words: &Vec<String>) -> (copy: Vec<String>)
    ensures
        texts(copy@) == texts(words@),
{
    let mut copy: Vec<String> = Vec::new();
    let mut i: usize = 0;
    while i < words.len()
        invariant
            i <= words@.len(),
            copy@.len() == i,
            forall|k: int| 0 <= k < i ==> (#[trigger] copy@[k])@ == words@[k]@,
        decreases words@.len() - i,
    {
        copy.push(words[i].clone());
        i += 1;
    }
    assert(texts(copy@) =~= texts(words@));
    copy
}

impl CodeWriter {
    /// Translates a command. Where the command has no translation, nothing
    /// is written.
    pub fn translate(&mut self, command: Command) -> (r: Result<(), TranslateError>)
        requires
            old(self).wf(),
            command.wf(),
        ensures
            final(self).wf(),
            match old(self)@.translate(command@) {
                Ok(next) => r is Ok && final(self)@ == next,
                Err(e) => r == Err::<(), TranslateError>(e) && final(self)@ == old(self)@,
            },
    {
        match command {
            Command::Arithmetic(op) => {
                self.translate_arithmetic(op);
                Ok(())
            },
            Command::Push(segment, index) => {
                self.translate_push(segment, index);
                Ok(())
            },
            Command::Pop(segment, index) => self.translate_pop(segment, index),
            Command::Label(name) => {
                self.write_label(name);
                Ok(())
            },
            Command::Goto(name) => {
                self.write_goto(name);
                Ok(())
            },
            Command::IfGoto(name) => {
                self.write_if(name);
                Ok(())
            },
            Command::Function(name, locals) => {
                self.write_function(name, locals);
                Ok(())
            },
            Command::Call(name, args) => {
                self.write_call(name, args);
                Ok(())
            },
            Command::Return => {
                self.write_return();
                Ok(())
            },
        }
    }

    /// Translates the command that `words` make. Where they make none, or
    /// one without a translation, nothing is written.
    pub fn translate_words(&mut self, words: &Vec<String>) -> (r: Result<(), TranslateError>)
        requires
            old(self).wf(),
        ensures
            final(self).wf(),
            match outcome(old(self)@, texts(words@)) {
                Ok(next) => r is Ok && final(self)@ == next,
                Err(e) => r == Err::<(), TranslateError>(e) && final(self)@ == old(self)@,
            },
    {
        match Command::parse(words) {
            Ok(command) => self.translate(command),
            Err(e) => Err(e),
        }
    }

    /// Translates the source file named `stem`, given as its lines, command
    /// by command. It stops at the first command that cannot be translated
    /// and returns that command with its line and the reason; what was
    /// written for the commands before it stays.
    pub fn translate_file(&mut self, stem: &str, lines: &Vec<String>) -> (r: Result<(), Failure>)
        requires
            old(self).wf(),
        ensures
            final(self).wf(),
            final(self)@ == old(self)@.translate_file(stem@, texts(lines@)).0,
            match old(self)@.translate_file(stem@, texts(lines@)).1 {
                None => r is Ok,
                Some(failure) => r is Err && r->Err_0@ == failure,
            },
    {
        let ghost goal = old(self)@.translate_file(stem@, texts(lines@));
        self.set_filename(String::from_str(stem));
        let mut parser = Parser::new(lines);
        while parser.has_more_commands()
            invariant
                self.wf(),
                goal == old(self)@.translate_file(stem@, texts(lines@)),
                self@.translate_all(parser.pending()) == goal,
            decreases parser.pending().len(),
        {
            let ghost before = parser.pending();
            let ghost state = self@;
            parser.advance();
            match self.translate_words(parser.current_words()) {
                Ok(_) => {
                    assert(state.translate_all(before) == self@.translate_all(
                        before.drop_first(),
                    ));
                },
                Err(error) => {
                    let failure = Failure {
                        error,
                        line: parser.line_number(),
                        command: copy_of(parser.current_words()),
                    };
                    assert(state.translate_all(before) == (state, Some(failure@)));
                    return Err(failure);
                },
            }
        }
        assert(self@.translate_all(parser.pending()) == (self@, None::<FailureView>));
        Ok(())
    }
}

/// Translates a program: writes the start-up sequence, translates the
/// source files in order, and writes the final sequence. The result is the
/// text of the target program, line by line, or the first command that
/// cannot be translated.
pub fn translate_program(files: &Vec<SourceFile>) -> (r: Result<Vec<String>, ProgramFailure>)
    ensures
        match program_of(sources(files@)) {
            Ok(state) => r is Ok && r->Ok_0@.len() == state.lines.len() && forall|i: int|
                0 <= i < state.lines.len() ==> (#[trigger] r->Ok_0@[i])@ == state.lines[i].text(),
            Err(failure) => r is Err && r->Err_0@ == failure,
        },
{
    let ghost all = sources(files@);
    let mut writer = CodeWriter::new();
    writer.write_init();
    let ghost goal = writer@.translate_files(all, 0);
    let mut i: usize = 0;
    while i < files.len()
        invariant
            writer.wf(),
            i <= files@.len(),
            all == sources(files@),
            goal == State::initial().bootstrap().translate_files(all, 0),
            writer@.translate_files(all, i as int) == goal,
        decreases files@.len() - i,
    {
        let file = &files[i];
        let ghost state = writer@;
        assert(all[i as int] == (file.stem@, texts(file.lines@)));
        match writer.translate_file(file.stem.as_str(), &file.lines) {
            Ok(_) => {
                assert(state.translate_files(all, i as int) == writer@.translate_files(
                    all,
                    i + 1,
                ));
            },
            Err(failure) => {
                let failed = ProgramFailure { file: i, failure };
                assert(state.translate_files(all, i as int) == (writer@, Some(failed@)));
                return Err(failed);
            },
        }
        i += 1;
    }
    assert(writer@.translate_files(all, i as int) == (writer@, None::<ProgramFailureView>));
    writer.close();
    Ok(writer.lines())
}

} // verus!
