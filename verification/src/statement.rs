//! The statement model: what a program is a sequence of, together with the
//! ghost form the parser's and evaluator's contracts speak of.

use crate::ast::{Expr, ExprV};
use crate::scanner::{Token, TokenV};
use vstd::prelude::*;

verus! {

/// A statement of the language.
#[derive(Debug)]
pub enum Stmt {
    /// An expression evaluated for its side effects only.
    Expr(Box<Expr>),
    /// `print` of an expression's value.
    PrintStmt(PrintStmt),
    /// A variable declaration with a mandatory initializer.
    Var(Var),
}

/// The expression a `print` statement emits.
#[derive(Debug)]
pub struct PrintStmt(pub Box<Expr>);

/// A variable declaration: the name token and the initializer.
#[derive(Debug)]
pub struct Var {
    pub name: Token,
    pub initializer: Box<Expr>,
}

/// Ghost form of a statement.
pub enum StmtV {
    Expr(ExprV),
    Print(ExprV),
    Var(TokenV, ExprV),
}

impl Stmt {
    /// The ghost form of this statement.
    pub open spec fn to_view(self) -> StmtV {
        match self {
            Stmt::Expr(e) => StmtV::Expr((*e).to_view()),
            Stmt::PrintStmt(p) => StmtV::Print((*p.0).to_view()),
            Stmt::Var(v) => StmtV::Var(v.name@, (*v.initializer).to_view()),
        }
    }
}

impl View for Stmt {
    type V = StmtV;

    open spec fn view(&self) -> StmtV {
        self.to_view()
    }
}

impl DeepView for Stmt {
    type V = StmtV;

    open spec fn deep_view(&self) -> StmtV {
        self.to_view()
    }
}

} // verus!
