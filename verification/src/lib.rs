//! A small dynamically-typed scripting language: a scanner that turns source
//! text into tokens, a recursive-descent parser that builds an abstract
//! syntax tree, and a tree-walking evaluator that executes statements against
//! a mutable variable store.
//!
//! Each stage is specified against a mathematical model: the scanner against
//! `spec_scan`, the parser against the `sp_*` grammar functions, and the
//! evaluator against `sp_eval` / `sp_interpret`. Runtime numbers are IEEE-754
//! binary64 values carried as their bit patterns; the floating-point
//! operations themselves are delegated to outside software implementations
//! behind a small trusted layer in `numbers`.

pub mod ast;
pub mod env;
pub mod interpreter;
pub mod laws;
pub mod numbers;
pub mod parser;
pub mod scanner;
pub mod statement;

use vstd::prelude::*;

verus! {

/// Ghost form of a line-tagged diagnostic, shared by every error kind of the
/// library: the 1-based source line and the message text.
pub struct ErrV {
    pub line: nat,
    pub message: Seq<char>,
}

/// A scan-stage diagnostic: the source line where it arose, and a message.
/// Scan errors do not abort scanning; the scanner collects them and goes on.
#[derive(Debug)]
pub struct JLoxError(pub usize, pub String);

impl View for JLoxError {
    type V = ErrV;

    open spec fn view(&self) -> ErrV {
        ErrV { line: self.0 as nat, message: self.1@ }
    }
}

impl DeepView for JLoxError {
    type V = ErrV;

    open spec fn deep_view(&self) -> ErrV {
        self.view()
    }
}

} // verus!
