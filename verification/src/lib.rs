//! A two-pass assembler for a small teaching register machine.
//!
//! Source text is parsed line by line into [`line::Line`] statements, a first
//! pass assigns addresses and fills the symbol table, a second pass encodes
//! every statement into object bytes, and the emitter folds the statements
//! into header, text, modification and end records.
//!
//! [`assemble`] runs the parser and the first pass over a program, and
//! [`emit_records`] runs the second pass and the emitter over its statements.
//! The module [`laws`] states what holds across the passes.

pub mod chars;
pub mod encode;
pub mod equality;
pub mod error;
pub mod grammar;
pub mod laws;
pub mod line;
pub mod listing;
pub mod parse;
pub mod pass1;
pub mod records;
pub mod tables;
pub mod text;

pub use pass1::assemble;
pub use records::emit_records;
