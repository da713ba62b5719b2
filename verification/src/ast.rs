//! The expression model: runtime values (`Literal`) and the expression tree
//! (`Expr`), together with their ghost forms (`ValueV`, `ExprV`) that the
//! contracts of the parser and the evaluator speak of.

use crate::numbers::{num_eq, num_eq_exec, num_text, num_text_exec};
use crate::scanner::{Token, TokenV};
use vstd::prelude::*;

verus! {

/// A runtime value: a binary64 number (as bits), a text, a boolean, or nil.
#[derive(Debug)]
pub enum Literal {
    Num(u64),
    Str(String),
    Bool(bool),
    Nil,
}

/// Ghost form of a runtime value.
pub enum ValueV {
    Num(u64),
    Str(Seq<char>),
    Bool(bool),
    Nil,
}

impl View for Literal {
    type V = ValueV;

    open spec fn view(&self) -> ValueV {
        match self {
            Literal::Num(n) => ValueV::Num(*n),
            Literal::Str(s) => ValueV::Str(s@),
            Literal::Bool(b) => ValueV::Bool(*b),
            Literal::Nil => ValueV::Nil,
        }
    }
}

impl DeepView for Literal {
    type V = ValueV;

    open spec fn deep_view(&self) -> ValueV {
        self.view()
    }
}

/// Truthiness: nil and false are falsy; every other value is truthy.
pub open spec fn val_truthy(v: ValueV) -> bool {
    match v {
        ValueV::Num(_) => true,
        ValueV::Str(_) => true,
        ValueV::Bool(b) => b,
        ValueV::Nil => false,
    }
}

/// Structural equality of values: values of different variants are never
/// equal; numbers compare by IEEE-754 equality, texts by their characters.
pub open spec fn val_eq(a: ValueV, b: ValueV) -> bool {
    match (a, b) {
        (ValueV::Num(x), ValueV::Num(y)) => num_eq(x, y),
        (ValueV::Str(s), ValueV::Str(t)) => s == t,
        (ValueV::Bool(x), ValueV::Bool(y)) => x == y,
        (ValueV::Nil, ValueV::Nil) => true,
        _ => false,
    }
}

/// The textual form of a value: a number's decimal text, a text as itself,
/// `true`/`false`, or `nil`.
pub open spec fn sp_render(v: ValueV) -> Seq<char> {
    match v {
        ValueV::Num(n) => num_text(n),
        ValueV::Str(s) => s,
        ValueV::Bool(b) => if b {
            "true"@
        } else {
            "false"@
        },
        ValueV::Nil => "nil"@,
    }
}

/// The message carried by the failure of `try_num`.
pub open spec fn nan_msg(v: ValueV) -> Seq<char> {
    "`"@ + sp_render(v) + "` NaN"@
}

/// The message carried by the failure of `try_string`.
pub open spec fn not_string_msg(v: ValueV) -> Seq<char> {
    "`"@ + sp_render(v) + "` Not a String"@
}

impl Clone for Literal {
    fn clone(&self) -> (r: Self)
        ensures
            r == *self,
    {
        match self {
            Literal::Num(n) => Literal::Num(*n),
            Literal::Str(s) => Literal::Str(s.clone()),
            Literal::Bool(b) => Literal::Bool(*b),
            Literal::Nil => Literal::Nil,
        }
    }
}

impl Literal {
    /// Truthiness of this value.
    pub fn is_truthy(&self) -> (r: bool)
        ensures
            r == val_truthy(self@),
    {
        match self {
            Literal::Num(_) => true,
            Literal::Str(_) => true,
            Literal::Bool(value) => *value,
            Literal::Nil => false,
        }
    }

    /// The number this value holds, or a message naming the value.
    pub fn try_num(&self) -> (r: Result<u64, String>)
        ensures
            match self@ {
                ValueV::Num(n) => r matches Ok(v) && v == n,
                _ => r matches Err(m) && m@ == nan_msg(self@),
            },
    {
        match self {
            Literal::Num(num) => Ok(*num),
            _ => Err(String::from_str("`").concat(self.render().as_str()).concat("` NaN")),
        }
    }

    /// The text this value holds, or a message naming the value.
    pub fn try_string(&self) -> (r: Result<String, String>)
        ensures
            match self@ {
                ValueV::Str(s) => r matches Ok(v) && v@ == s,
                _ => r matches Err(m) && m@ == not_string_msg(self@),
            },
    {
        match self {
            Literal::Str(value) => Ok(value.clone()),
            _ => Err(
                String::from_str("`").concat(self.render().as_str()).concat("` Not a String"),
            ),
        }
    }

    /// The textual form of this value.
    pub fn render(&self) -> (r: String)
        ensures
            r@ == sp_render(self@),
    {
        match self {
            Literal::Num(n) => num_text_exec(*n),
            Literal::Str(s) => s.clone(),
            Literal::Bool(b) => if *b {
                String::from_str("true")
            } else {
                String::from_str("false")
            },
            Literal::Nil => String::from_str("nil"),
        }
    }

    /// Structural equality with another value.
    pub fn equals(&self, other: &Literal) -> (r: bool)
        ensures
            r == val_eq(self@, other@),
    {
        match (self, other) {
            (Literal::Num(x), Literal::Num(y)) => num_eq_exec(*x, *y),
            (Literal::Str(s), Literal::Str(t)) => *s == *t,
            (Literal::Bool(x), Literal::Bool(y)) => *x == *y,
            (Literal::Nil, Literal::Nil) => true,
            _ => false,
        }
    }
}

/// An expression of the language.
#[derive(Debug)]
pub enum Expr {
    Binary(Binary),
    Literal(Literal),
    Unary(Unary),
    Grouping(Grouping),
    Variable(Variable),
    Assignment(Assignment),
}

/// A binary operation: left operand, operator token, right operand.
#[derive(Debug)]
pub struct Binary(pub Box<Expr>, pub Token, pub Box<Expr>);

/// A unary operation: operator token and operand.
#[derive(Debug)]
pub struct Unary(pub Token, pub Box<Expr>);

/// A parenthesized expression.
#[derive(Debug)]
pub struct Grouping(pub Box<Expr>);

/// A variable reference, by its name token.
#[derive(Debug)]
pub struct Variable {
    pub name: Token,
}

/// An assignment: the name token and the value expression.
#[derive(Debug)]
pub struct Assignment {
    pub name: Token,
    pub value: Box<Expr>,
}

/// Ghost form of an expression.
pub enum ExprV {
    Binary(Box<ExprV>, TokenV, Box<ExprV>),
    Literal(ValueV),
    Unary(TokenV, Box<ExprV>),
    Grouping(Box<ExprV>),
    Variable(TokenV),
    Assignment(TokenV, Box<ExprV>),
}

impl Expr {
    /// The ghost form of this expression.
    pub open spec fn to_view(self) -> ExprV
        decreases self,
    {
        match self {
            Expr::Binary(b) => ExprV::Binary(
                Box::new((*b.0).to_view()),
                b.1@,
                Box::new((*b.2).to_view()),
            ),
            Expr::Literal(l) => ExprV::Literal(l@),
            Expr::Unary(u) => ExprV::Unary(u.0@, Box::new((*u.1).to_view())),
            Expr::Grouping(g) => ExprV::Grouping(Box::new((*g.0).to_view())),
            Expr::Variable(v) => ExprV::Variable(v.name@),
            Expr::Assignment(a) => ExprV::Assignment(a.name@, Box::new((*a.value).to_view())),
        }
    }
}

impl View for Expr {
    type V = ExprV;

    open spec fn view(&self) -> ExprV {
        self.to_view()
    }
}

impl DeepView for Expr {
    type V = ExprV;

    open spec fn deep_view(&self) -> ExprV {
        self.to_view()
    }
}

} // verus!
