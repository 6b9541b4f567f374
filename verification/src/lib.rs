//! An incremental parser for a small expression-oriented language with
//! user-extensible binary operators.
//!
//! Token sequences come in from a tokenizer; the parser turns them into an
//! abstract syntax tree. Every parsing operation is tri-state: it succeeds and
//! reports how far it read, or signals that the input ran out before the
//! construct could be judged, or fails with a message. The operator table is
//! owned by the parsing session and may grow while parsing runs.

pub mod tokens;
pub mod ast;
pub mod settings;
pub mod grammar;
pub mod parser;
pub mod resume;
