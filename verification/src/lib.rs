//! FSL: a small declarative scripting language.
//!
//! An FSL program declares an author identity (`me: @jeff`) followed by
//! object-creation commands (`+repo me/foo > x`) and comments (`# ...`).
//! This crate parses such programs, builds a structured document from
//! them, runs semantic checks over the document, and assembles the
//! document and the check diagnostics into one JSON output.

pub mod compiler;
pub mod grammar;
pub mod ast;
pub mod parser;
pub mod output;
pub mod text;
pub mod transpiler;
