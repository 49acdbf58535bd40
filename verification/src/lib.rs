//! A translator from a stack-machine language to the symbolic assembly of a
//! machine with two registers and a memory of sixteen-bit words.
//!
//! The source language has arithmetic on a stack, access to eight memory
//! segments, labels and jumps, and function calls. Each command becomes a
//! fixed sequence of target instructions; the generator counts the
//! instructions it writes, so that a jump inside such a sequence can name
//! the absolute position of its target.
//!
//! - [`parser`] and [`lexer`] turn the lines of a source file into
//!   commands; [`command`] holds the commands as closed sets of variants.
//! - [`code_writer`] is the generator; [`blocks`] says, as mathematical
//!   values, which lines each command is translated to; [`instruction`]
//!   holds the target instructions and their text.
//! - [`translator`] translates whole files and programs.
//! - [`machine`] is a model of the target machine. Against it, [`effects`],
//!   [`calling`] and [`sequences`] prove what the translations do when they
//!   are run; [`linking`] proves where labels and jumps land, and
//!   [`scoping`] that the symbols made up by the generator keep apart what
//!   they should.

pub mod word;
pub mod text;
pub mod instruction;
pub mod command;
pub mod blocks;
pub mod code_writer;
pub mod machine;
pub mod effects;
pub mod calling;
pub mod linking;
pub mod scoping;
pub mod lexer;
pub mod parser;
pub mod translator;
pub mod sequences;
