//! A small dynamically typed, class-based scripting language: scanner, parser,
//! resolver and a resumable evaluator, each with a machine-checked contract.
//!
//! The scanner, the grammar and the resolver are stated as functions of
//! their input; `laws`, `progress` and `sound` hold what is proved of them
//! and of the evaluator beyond that.
//!
//! An expression prints as source text (`written`), and what the parser
//! yielded from a scanned source reads back from that text (`roundtrip`,
//! which rests on `scanned`, `yielded`, `rescan` and `reparse`).
//!
//! The evaluator never touches the outside world. It runs until it needs
//! something only the embedding program can provide (floating-point
//! arithmetic, output, a native function) and hands back an
//! [`interpreter::Action`] that says what; the embedder answers and lets it
//! run on.

pub mod number;
pub mod token;
pub mod expr;
pub mod stmt;
pub mod error;
pub mod function;
pub mod class;
pub mod environment;
pub mod heap;
pub mod locals;
pub mod interpreter;
pub mod resolver;
pub mod grammar;
pub mod parser;
pub mod text;
pub mod scanner;
pub mod laws;
pub mod sound;
pub mod progress;
pub mod written;
pub mod reparse;
pub mod rescan;
pub mod roundtrip;
pub mod scanned;
pub mod yielded;
