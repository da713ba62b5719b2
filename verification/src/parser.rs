//! The parser: recursive descent over the token sequence, one rule per
//! precedence level, lowest to highest binding:
//!
//! ```text
//! program     -> declaration* EOF
//! declaration -> "var" IDENTIFIER "=" expression ";" | statement
//! statement   -> "print" expression ";" | expression ";"
//! expression  -> assignment
//! assignment  -> IDENTIFIER "=" assignment | equality
//! equality    -> comparison (("!=" | "==") comparison)*
//! comparison  -> term ((">" | ">=" | "<" | "<=") term)*
//! term        -> factor (("-" | "+") factor)*
//! factor      -> unary (("/" | "*") unary)*
//! unary       -> ("!" | "-") unary | primary
//! primary     -> NUMBER | STRING | "true" | "false" | "nil"
//!              | "(" expression ")" | IDENTIFIER
//! ```
//!
//! The binary levels are left-associative; `unary` is right-associative. A
//! variable declaration's initializer is mandatory. On a parse error the
//! parser records the error and discards tokens up to the next statement
//! boundary (`synchronize`), so one run can surface several errors, one per
//! malformed statement.
//!
//! The ghost model is the `sp_*` family below: each function takes the
//! token sequence and a position and returns the parsed node with the next
//! position, or the error with the position where parsing stopped. The
//! bounds guards on returned positions (`if pos <= p <= toks.len()`) only
//! make termination of the model evident: the `lemma_*_progress` family
//! proves that every sub-parse lands inside those bounds, so the guarded
//! fallback branches are dead. `Parser::parse` is proved to return exactly
//! the statements and errors of `sp_program`.

use crate::ast::{Assignment, Binary, Expr, ExprV, Grouping, Literal, Unary, ValueV, Variable};
use crate::interpreter::{wf_expr, wf_stmt};
use crate::scanner::{Token, TokenType, TokenV};
use crate::statement::{PrintStmt, Stmt, StmtV, Var};
use crate::ErrV;
use vstd::prelude::*;

verus! {

/// A grammar violation: the line of the token where it was noticed, and a
/// human-readable expectation message.
#[derive(Debug)]
pub struct ParserError {
    pub line: usize,
    pub message: String,
}

impl View for ParserError {
    type V = ErrV;

    open spec fn view(&self) -> ErrV {
        ErrV { line: self.line as nat, message: self.message@ }
    }
}

impl DeepView for ParserError {
    type V = ErrV;

    open spec fn deep_view(&self) -> ErrV {
        self.view()
    }
}

/// A token sequence the parser can run on: nonempty, ending with the
/// end-of-input token the scanner always appends.
pub open spec fn wf_tokens(toks: Seq<TokenV>) -> bool {
    toks.len() > 0 && toks[toks.len() - 1].token_type == TokenType::EOF
}

/// The line of the token at `p`, for error reports.
pub open spec fn line_at(toks: Seq<TokenV>, p: int) -> nat {
    if 0 <= p < toks.len() {
        toks[p].line
    } else {
        0
    }
}

/// The token kind at `p`.
pub open spec fn tt_at(toks: Seq<TokenV>, p: int) -> TokenType {
    toks[p].token_type
}

/// primary -> NUMBER | STRING | "true" | "false" | "nil"
///          | "(" expression ")" | IDENTIFIER
pub open spec fn sp_primary(toks: Seq<TokenV>, pos: int) -> Result<(ExprV, int), (ErrV, int)>
    decreases toks.len() - pos, 7int,
{
    if !(0 <= pos < toks.len()) {
        Err((ErrV { line: 0, message: "Something went wrong"@ }, pos))
    } else {
        let t = toks[pos];
        match t.token_type {
            TokenType::False => Ok((ExprV::Literal(ValueV::Bool(false)), pos + 1)),
            TokenType::True => Ok((ExprV::Literal(ValueV::Bool(true)), pos + 1)),
            TokenType::Nil => Ok((ExprV::Literal(ValueV::Nil), pos + 1)),
            TokenType::String => Ok((ExprV::Literal(ValueV::Str(t.literal)), pos + 1)),
            TokenType::Number(n) => Ok((ExprV::Literal(ValueV::Num(n)), pos + 1)),
            TokenType::Identifier => Ok((ExprV::Variable(t), pos + 1)),
            TokenType::LeftParen => match sp_expression(toks, pos + 1) {
                Ok((e, p)) => if 0 <= p < toks.len() && tt_at(toks, p) == TokenType::RightParen {
                    Ok((ExprV::Grouping(Box::new(e)), p + 1))
                } else {
                    Err(
                        (
                            ErrV {
                                line: line_at(toks, p),
                                message: "Expect ')' after expression."@,
                            },
                            p,
                        ),
                    )
                },
                Err(ep) => Err(ep),
            },
            _ => Err((ErrV { line: t.line, message: "Something went wrong"@ }, pos)),
        }
    }
}

/// unary -> ("!" | "-") unary | primary
pub open spec fn sp_unary(toks: Seq<TokenV>, pos: int) -> Result<(ExprV, int), (ErrV, int)>
    decreases toks.len() - pos, 8int,
{
    if 0 <= pos < toks.len() && (tt_at(toks, pos) == TokenType::Bang || tt_at(toks, pos)
        == TokenType::Minus) {
        match sp_unary(toks, pos + 1) {
            Ok((r, p)) => Ok((ExprV::Unary(toks[pos], Box::new(r)), p)),
            Err(ep) => Err(ep),
        }
    } else {
        sp_primary(toks, pos)
    }
}

/// The operand-folding loop of `factor`.
pub open spec fn sp_factor_rest(toks: Seq<TokenV>, pos: int, left: ExprV) -> Result<
    (ExprV, int),
    (ErrV, int),
>
    decreases toks.len() - pos, 9int,
{
    if 0 <= pos < toks.len() && (tt_at(toks, pos) == TokenType::Slash || tt_at(toks, pos)
        == TokenType::Star) {
        match sp_unary(toks, pos + 1) {
            Ok((r, p2)) => if pos + 1 <= p2 <= toks.len() {
                sp_factor_rest(
                    toks,
                    p2,
                    ExprV::Binary(Box::new(left), toks[pos], Box::new(r)),
                )
            } else {
                Err((ErrV { line: 0, message: Seq::empty() }, p2))
            },
            Err(ep) => Err(ep),
        }
    } else {
        Ok((left, pos))
    }
}

/// factor -> unary (("/" | "*") unary)*
pub open spec fn sp_factor(toks: Seq<TokenV>, pos: int) -> Result<(ExprV, int), (ErrV, int)>
    decreases toks.len() - pos, 10int,
{
    match sp_unary(toks, pos) {
        Ok((e, p)) => if pos <= p <= toks.len() {
            sp_factor_rest(toks, p, e)
        } else {
            Err((ErrV { line: 0, message: Seq::empty() }, p))
        },
        Err(ep) => Err(ep),
    }
}

/// The operand-folding loop of `term`.
pub open spec fn sp_term_rest(toks: Seq<TokenV>, pos: int, left: ExprV) -> Result<
    (ExprV, int),
    (ErrV, int),
>
    decreases toks.len() - pos, 11int,
{
    if 0 <= pos < toks.len() && (tt_at(toks, pos) == TokenType::Minus || tt_at(toks, pos)
        == TokenType::Plus) {
        match sp_factor(toks, pos + 1) {
            Ok((r, p2)) => if pos + 1 <= p2 <= toks.len() {
                sp_term_rest(toks, p2, ExprV::Binary(Box::new(left), toks[pos], Box::new(r)))
            } else {
                Err((ErrV { line: 0, message: Seq::empty() }, p2))
            },
            Err(ep) => Err(ep),
        }
    } else {
        Ok((left, pos))
    }
}

/// term -> factor (("-" | "+") factor)*
pub open spec fn sp_term(toks: Seq<TokenV>, pos: int) -> Result<(ExprV, int), (ErrV, int)>
    decreases toks.len() - pos, 12int,
{
    match sp_factor(toks, pos) {
        Ok((e, p)) => if pos <= p <= toks.len() {
            sp_term_rest(toks, p, e)
        } else {
            Err((ErrV { line: 0, message: Seq::empty() }, p))
        },
        Err(ep) => Err(ep),
    }
}

/// The operand-folding loop of `comparison`.
pub open spec fn sp_comparison_rest(toks: Seq<TokenV>, pos: int, left: ExprV) -> Result<
    (ExprV, int),
    (ErrV, int),
>
    decreases toks.len() - pos, 13int,
{
    if 0 <= pos < toks.len() && (tt_at(toks, pos) == TokenType::Greater || tt_at(toks, pos)
        == TokenType::GreaterEqual || tt_at(toks, pos) == TokenType::Less || tt_at(toks, pos)
        == TokenType::LessEqual) {
        match sp_term(toks, pos + 1) {
            Ok((r, p2)) => if pos + 1 <= p2 <= toks.len() {
                sp_comparison_rest(
                    toks,
                    p2,
                    ExprV::Binary(Box::new(left), toks[pos], Box::new(r)),
                )
            } else {
                Err((ErrV { line: 0, message: Seq::empty() }, p2))
            },
            Err(ep) => Err(ep),
        }
    } else {
        Ok((left, pos))
    }
}

/// comparison -> term ((">" | ">=" | "<" | "<=") term)*
pub open spec fn sp_comparison(toks: Seq<TokenV>, pos: int) -> Result<(ExprV, int), (ErrV, int)>
    decreases toks.len() - pos, 14int,
{
    match sp_term(toks, pos) {
        Ok((e, p)) => if pos <= p <= toks.len() {
            sp_comparison_rest(toks, p, e)
        } else {
            Err((ErrV { line: 0, message: Seq::empty() }, p))
        },
        Err(ep) => Err(ep),
    }
}

/// The operand-folding loop of `equality`.
pub open spec fn sp_equality_rest(toks: Seq<TokenV>, pos: int, left: ExprV) -> Result<
    (ExprV, int),
    (ErrV, int),
>
    decreases toks.len() - pos, 15int,
{
    if 0 <= pos < toks.len() && (tt_at(toks, pos) == TokenType::BangEqual || tt_at(toks, pos)
        == TokenType::EqualEqual) {
        match sp_comparison(toks, pos + 1) {
            Ok((r, p2)) => if pos + 1 <= p2 <= toks.len() {
                sp_equality_rest(
                    toks,
                    p2,
                    ExprV::Binary(Box::new(left), toks[pos], Box::new(r)),
                )
            } else {
                Err((ErrV { line: 0, message: Seq::empty() }, p2))
            },
            Err(ep) => Err(ep),
        }
    } else {
        Ok((left, pos))
    }
}

/// equality -> comparison (("!=" | "==") comparison)*
pub open spec fn sp_equality(toks: Seq<TokenV>, pos: int) -> Result<(ExprV, int), (ErrV, int)>
    decreases toks.len() - pos, 16int,
{
    match sp_comparison(toks, pos) {
        Ok((e, p)) => if pos <= p <= toks.len() {
            sp_equality_rest(toks, p, e)
        } else {
            Err((ErrV { line: 0, message: Seq::empty() }, p))
        },
        Err(ep) => Err(ep),
    }
}

/// assignment -> IDENTIFIER "=" assignment | equality
///
/// The left-hand side is parsed as an `equality`; when an `=` follows, the
/// side parsed must have been a plain variable, else the assignment target
/// is invalid.
pub open spec fn sp_assignment(toks: Seq<TokenV>, pos: int) -> Result<(ExprV, int), (ErrV, int)>
    decreases toks.len() - pos, 18int,
{
    match sp_equality(toks, pos) {
        Ok((e, p)) => if 0 <= p < toks.len() && tt_at(toks, p) == TokenType::Equal {
            if pos <= p {
                match e {
                    ExprV::Variable(name) => match sp_assignment(toks, p + 1) {
                        Ok((v, p2)) => Ok((ExprV::Assignment(name, Box::new(v)), p2)),
                        Err(ep) => Err(ep),
                    },
                    _ => Err(
                        (
                            ErrV {
                                line: toks[p].line,
                                message: "Invalid assignment target."@,
                            },
                            p + 1,
                        ),
                    ),
                }
            } else {
                Err((ErrV { line: 0, message: Seq::empty() }, p))
            }
        } else {
            Ok((e, p))
        },
        Err(ep) => Err(ep),
    }
}

/// expression -> assignment
pub open spec fn sp_expression(toks: Seq<TokenV>, pos: int) -> Result<(ExprV, int), (ErrV, int)>
    decreases toks.len() - pos, 20int,
{
    sp_assignment(toks, pos)
}

/// "print" has been consumed: expression ";".
pub open spec fn sp_print_statement(toks: Seq<TokenV>, pos: int) -> Result<
    (StmtV, int),
    (ErrV, int),
>
    decreases toks.len() - pos, 21int,
{
    match sp_expression(toks, pos) {
        Ok((e, p)) => if 0 <= p < toks.len() && tt_at(toks, p) == TokenType::Semicolon {
            Ok((StmtV::Print(e), p + 1))
        } else {
            Err((ErrV { line: line_at(toks, p), message: "Expect ';' after value."@ }, p))
        },
        Err(ep) => Err(ep),
    }
}

/// expression ";", evaluated for its side effects.
pub open spec fn sp_expression_statement(toks: Seq<TokenV>, pos: int) -> Result<
    (StmtV, int),
    (ErrV, int),
>
    decreases toks.len() - pos, 21int,
{
    match sp_expression(toks, pos) {
        Ok((e, p)) => if 0 <= p < toks.len() && tt_at(toks, p) == TokenType::Semicolon {
            Ok((StmtV::Expr(e), p + 1))
        } else {
            Err((ErrV { line: line_at(toks, p), message: "Expect ';' after value."@ }, p))
        },
        Err(ep) => Err(ep),
    }
}

/// statement -> "print" expression ";" | expression ";"
pub open spec fn sp_statement(toks: Seq<TokenV>, pos: int) -> Result<(StmtV, int), (ErrV, int)>
    decreases toks.len() - pos, 22int,
{
    if 0 <= pos < toks.len() && tt_at(toks, pos) == TokenType::Print {
        sp_print_statement(toks, pos + 1)
    } else {
        sp_expression_statement(toks, pos)
    }
}

/// "var" has been consumed: IDENTIFIER "=" expression ";". The initializer
/// is mandatory: a declaration without one is a parse error.
pub open spec fn sp_var_declaration(toks: Seq<TokenV>, pos: int) -> Result<
    (StmtV, int),
    (ErrV, int),
>
    decreases toks.len() - pos, 23int,
{
    if 0 <= pos < toks.len() && tt_at(toks, pos) == TokenType::Identifier {
        let name = toks[pos];
        if pos + 1 < toks.len() && tt_at(toks, pos + 1) == TokenType::Equal {
            match sp_expression(toks, pos + 2) {
                Ok((e, p)) => if 0 <= p < toks.len() && tt_at(toks, p) == TokenType::Semicolon {
                    Ok((StmtV::Var(name, e), p + 1))
                } else {
                    Err(
                        (
                            ErrV {
                                line: line_at(toks, p),
                                message: "Expect ';' after variable declaration"@,
                            },
                            p,
                        ),
                    )
                },
                Err(ep) => Err(ep),
            }
        } else {
            Err(
                (
                    ErrV {
                        line: name.line,
                        message: "No token matched during var_declaration"@,
                    },
                    pos + 1,
                ),
            )
        }
    } else {
        Err((ErrV { line: line_at(toks, pos), message: "Expect variable name."@ }, pos))
    }
}

/// declaration -> "var" IDENTIFIER "=" expression ";" | statement
pub open spec fn sp_declaration(toks: Seq<TokenV>, pos: int) -> Result<(StmtV, int), (ErrV, int)>
    decreases toks.len() - pos, 24int,
{
    if 0 <= pos < toks.len() && tt_at(toks, pos) == TokenType::Var {
        sp_var_declaration(toks, pos + 1)
    } else {
        sp_statement(toks, pos)
    }
}

/// A token that may start a new statement: where `synchronize` stops.
pub open spec fn is_sync_start(t: TokenType) -> bool {
    ||| t == TokenType::Class
    ||| t == TokenType::Fun
    ||| t == TokenType::Var
    ||| t == TokenType::For
    ||| t == TokenType::If
    ||| t == TokenType::While
    ||| t == TokenType::Print
    ||| t == TokenType::Return
}

/// The walk of `synchronize` after its first step: stop at end-of-input,
/// just after a semicolon, or before a statement keyword.
pub open spec fn sp_sync_loop(toks: Seq<TokenV>, p: int) -> int
    decreases toks.len() - p,
{
    if !(0 < p < toks.len()) {
        p
    } else if tt_at(toks, p) == TokenType::EOF {
        p
    } else if tt_at(toks, p - 1) == TokenType::Semicolon {
        p
    } else if is_sync_start(tt_at(toks, p)) {
        p
    } else {
        sp_sync_loop(toks, p + 1)
    }
}

/// Error recovery: discard the token where the error was noticed, then
/// tokens up to the next statement boundary.
pub open spec fn sp_synchronize(toks: Seq<TokenV>, pos: int) -> int {
    if 0 <= pos < toks.len() && tt_at(toks, pos) != TokenType::EOF {
        sp_sync_loop(toks, pos + 1)
    } else {
        sp_sync_loop(toks, pos)
    }
}

/// program -> declaration* EOF, with per-statement error recovery: each
/// malformed statement contributes its error and is dropped, and parsing
/// resumes at the next statement boundary.
pub open spec fn sp_program(toks: Seq<TokenV>, pos: int) -> (Seq<StmtV>, Seq<ErrV>)
    decreases toks.len() - pos,
{
    if !(0 <= pos < toks.len()) || tt_at(toks, pos) == TokenType::EOF {
        (Seq::empty(), Seq::empty())
    } else {
        match sp_declaration(toks, pos) {
            Ok((s, p)) => if pos < p <= toks.len() {
                let (ss, es) = sp_program(toks, p);
                (seq![s] + ss, es)
            } else {
                (Seq::empty(), Seq::empty())
            },
            Err((e, p)) => {
                let p2 = sp_synchronize(toks, p);
                if pos < p2 <= toks.len() {
                    let (ss, es) = sp_program(toks, p2);
                    (ss, seq![e] + es)
                } else {
                    (Seq::empty(), seq![e])
                }
            },
        }
    }
}

/// Progress of `sp_primary`: a successful parse consumes at least one
/// token, and an error position never runs backwards or past the end. With
/// the like-named lemmas below this shows that the bounds guards inside the
/// `sp_*` functions always pass: their fallback branches are dead.
pub proof fn lemma_primary_progress(toks: Seq<TokenV>, pos: int)
    requires
        0 <= pos <= toks.len(),
    ensures
        match sp_primary(toks, pos) {
            Ok((e, p)) => pos < p <= toks.len(),
            Err((e, p)) => pos <= p <= toks.len(),
        },
    decreases toks.len() - pos, 7int,
{
    if 0 <= pos < toks.len() && tt_at(toks, pos) == TokenType::LeftParen {
        lemma_expression_progress(toks, pos + 1);
    }
}

/// Progress of `sp_unary`.
pub proof fn lemma_unary_progress(toks: Seq<TokenV>, pos: int)
    requires
        0 <= pos <= toks.len(),
    ensures
        match sp_unary(toks, pos) {
            Ok((e, p)) => pos < p <= toks.len(),
            Err((e, p)) => pos <= p <= toks.len(),
        },
    decreases toks.len() - pos, 8int,
{
    if 0 <= pos < toks.len() && (tt_at(toks, pos) == TokenType::Bang || tt_at(toks, pos)
        == TokenType::Minus) {
        lemma_unary_progress(toks, pos + 1);
    } else {
        lemma_primary_progress(toks, pos);
    }
}

/// Progress of `sp_factor_rest`.
pub proof fn lemma_factor_rest_progress(toks: Seq<TokenV>, pos: int, left: ExprV)
    requires
        0 <= pos <= toks.len(),
    ensures
        match sp_factor_rest(toks, pos, left) {
            Ok((e, p)) => pos <= p <= toks.len(),
            Err((e, p)) => pos <= p <= toks.len(),
        },
    decreases toks.len() - pos, 9int,
{
    if 0 <= pos < toks.len() && (tt_at(toks, pos) == TokenType::Slash || tt_at(toks, pos)
        == TokenType::Star) {
        lemma_unary_progress(toks, pos + 1);
        match sp_unary(toks, pos + 1) {
            Ok((r, p2)) => {
                lemma_factor_rest_progress(
                    toks,
                    p2,
                    ExprV::Binary(Box::new(left), toks[pos], Box::new(r)),
                );
            },
            Err(_) => {},
        }
    }
}

/// Progress of `sp_factor`.
pub proof fn lemma_factor_progress(toks: Seq<TokenV>, pos: int)
    requires
        0 <= pos <= toks.len(),
    ensures
        match sp_factor(toks, pos) {
            Ok((e, p)) => pos < p <= toks.len(),
            Err((e, p)) => pos <= p <= toks.len(),
        },
    decreases toks.len() - pos, 10int,
{
    lemma_unary_progress(toks, pos);
    match sp_unary(toks, pos) {
        Ok((e, p)) => {
            lemma_factor_rest_progress(toks, p, e);
        },
        Err(_) => {},
    }
}

/// Progress of `sp_term_rest`.
pub proof fn lemma_term_rest_progress(toks: Seq<TokenV>, pos: int, left: ExprV)
    requires
        0 <= pos <= toks.len(),
    ensures
        match sp_term_rest(toks, pos, left) {
            Ok((e, p)) => pos <= p <= toks.len(),
            Err((e, p)) => pos <= p <= toks.len(),
        },
    decreases toks.len() - pos, 11int,
{
    if 0 <= pos < toks.len() && (tt_at(toks, pos) == TokenType::Minus || tt_at(toks, pos)
        == TokenType::Plus) {
        lemma_factor_progress(toks, pos + 1);
        match sp_factor(toks, pos + 1) {
            Ok((r, p2)) => {
                lemma_term_rest_progress(
                    toks,
                    p2,
                    ExprV::Binary(Box::new(left), toks[pos], Box::new(r)),
                );
            },
            Err(_) => {},
        }
    }
}

/// Progress of `sp_term`.
pub proof fn lemma_term_progress(toks: Seq<TokenV>, pos: int)
    requires
        0 <= pos <= toks.len(),
    ensures
        match sp_term(toks, pos) {
            Ok((e, p)) => pos < p <= toks.len(),
            Err((e, p)) => pos <= p <= toks.len(),
        },
    decreases toks.len() - pos, 12int,
{
    lemma_factor_progress(toks, pos);
    match sp_factor(toks, pos) {
        Ok((e, p)) => {
            lemma_term_rest_progress(toks, p, e);
        },
        Err(_) => {},
    }
}

/// Progress of `sp_comparison_rest`.
pub proof fn lemma_comparison_rest_progress(toks: Seq<TokenV>, pos: int, left: ExprV)
    requires
        0 <= pos <= toks.len(),
    ensures
        match sp_comparison_rest(toks, pos, left) {
            Ok((e, p)) => pos <= p <= toks.len(),
            Err((e, p)) => pos <= p <= toks.len(),
        },
    decreases toks.len() - pos, 13int,
{
    if 0 <= pos < toks.len() && (tt_at(toks, pos) == TokenType::Greater || tt_at(toks, pos)
        == TokenType::GreaterEqual || tt_at(toks, pos) == TokenType::Less || tt_at(toks, pos)
        == TokenType::LessEqual) {
        lemma_term_progress(toks, pos + 1);
        match sp_term(toks, pos + 1) {
            Ok((r, p2)) => {
                lemma_comparison_rest_progress(
                    toks,
                    p2,
                    ExprV::Binary(Box::new(left), toks[pos], Box::new(r)),
                );
            },
            Err(_) => {},
        }
    }
}

/// Progress of `sp_comparison`.
pub proof fn lemma_comparison_progress(toks: Seq<TokenV>, pos: int)
    requires
        0 <= pos <= toks.len(),
    ensures
        match sp_comparison(toks, pos) {
            Ok((e, p)) => pos < p <= toks.len(),
            Err((e, p)) => pos <= p <= toks.len(),
        },
    decreases toks.len() - pos, 14int,
{
    lemma_term_progress(toks, pos);
    match sp_term(toks, pos) {
        Ok((e, p)) => {
            lemma_comparison_rest_progress(toks, p, e);
        },
        Err(_) => {},
    }
}

/// Progress of `sp_equality_rest`.
pub proof fn lemma_equality_rest_progress(toks: Seq<TokenV>, pos: int, left: ExprV)
    requires
        0 <= pos <= toks.len(),
    ensures
        match sp_equality_rest(toks, pos, left) {
            Ok((e, p)) => pos <= p <= toks.len(),
            Err((e, p)) => pos <= p <= toks.len(),
        },
    decreases toks.len() - pos, 15int,
{
    if 0 <= pos < toks.len() && (tt_at(toks, pos) == TokenType::BangEqual || tt_at(toks, pos)
        == TokenType::EqualEqual) {
        lemma_comparison_progress(toks, pos + 1);
        match sp_comparison(toks, pos + 1) {
            Ok((r, p2)) => {
                lemma_equality_rest_progress(
                    toks,
                    p2,
                    ExprV::Binary(Box::new(left), toks[pos], Box::new(r)),
                );
            },
            Err(_) => {},
        }
    }
}

/// Progress of `sp_equality`.
pub proof fn lemma_equality_progress(toks: Seq<TokenV>, pos: int)
    requires
        0 <= pos <= toks.len(),
    ensures
        match sp_equality(toks, pos) {
            Ok((e, p)) => pos < p <= toks.len(),
            Err((e, p)) => pos <= p <= toks.len(),
        },
    decreases toks.len() - pos, 16int,
{
    lemma_comparison_progress(toks, pos);
    match sp_comparison(toks, pos) {
        Ok((e, p)) => {
            lemma_equality_rest_progress(toks, p, e);
        },
        Err(_) => {},
    }
}

/// Progress of `sp_assignment`.
pub proof fn lemma_assignment_progress(toks: Seq<TokenV>, pos: int)
    requires
        0 <= pos <= toks.len(),
    ensures
        match sp_assignment(toks, pos) {
            Ok((e, p)) => pos < p <= toks.len(),
            Err((e, p)) => pos <= p <= toks.len(),
        },
    decreases toks.len() - pos, 18int,
{
    lemma_equality_progress(toks, pos);
    match sp_equality(toks, pos) {
        Ok((e, p)) => {
            if 0 <= p < toks.len() && tt_at(toks, p) == TokenType::Equal {
                if e is Variable {
                    lemma_assignment_progress(toks, p + 1);
                }
            }
        },
        Err(_) => {},
    }
}

/// Progress of `sp_expression`.
pub proof fn lemma_expression_progress(toks: Seq<TokenV>, pos: int)
    requires
        0 <= pos <= toks.len(),
    ensures
        match sp_expression(toks, pos) {
            Ok((e, p)) => pos < p <= toks.len(),
            Err((e, p)) => pos <= p <= toks.len(),
        },
    decreases toks.len() - pos, 20int,
{
    lemma_assignment_progress(toks, pos);
}

/// Progress of `sp_declaration`, through the statement rules: a parsed
/// statement consumes at least one token, and an error position stays
/// inside the sequence.
pub proof fn lemma_declaration_progress(toks: Seq<TokenV>, pos: int)
    requires
        0 <= pos <= toks.len(),
    ensures
        match sp_declaration(toks, pos) {
            Ok((s, p)) => pos < p <= toks.len(),
            Err((e, p)) => pos <= p <= toks.len(),
        },
{
    if 0 <= pos < toks.len() && tt_at(toks, pos) == TokenType::Var {
        if pos + 1 < toks.len() && tt_at(toks, pos + 1) == TokenType::Identifier && pos + 2
            < toks.len() && tt_at(toks, pos + 2) == TokenType::Equal {
            lemma_expression_progress(toks, pos + 3);
        }
    } else if 0 <= pos < toks.len() && tt_at(toks, pos) == TokenType::Print {
        lemma_expression_progress(toks, pos + 1);
    } else {
        lemma_expression_progress(toks, pos);
    }
}

/// The parser's state: the token vector and a cursor over it.
pub struct Parser {
    pub tokens: Vec<Token>,
    pub current: usize,
}

impl Parser {
    /// The tokens as the model sees them.
    pub open spec fn toks(&self) -> Seq<TokenV> {
        self.tokens.deep_view()
    }

    /// The kind of the token under the cursor.
    pub open spec fn peek_type(&self) -> TokenType {
        self.toks()[self.current as int].token_type
    }

    /// The cursor stays on a token; the sequence ends with end-of-input.
    pub open spec fn wf(&self) -> bool {
        wf_tokens(self.toks()) && (self.current as int) < self.toks().len()
    }

    pub fn new(tokens: Vec<Token>) -> (r: Parser)
        requires
            wf_tokens(tokens.deep_view()),
        ensures
            r.wf(),
            r.toks() == tokens.deep_view(),
            r.current == 0,
    {
        Parser { tokens, current: 0 }
    }

    fn is_at_end(&self) -> (r: bool)
        requires
            self.wf(),
        ensures
            r == (self.peek_type() == TokenType::EOF),
    {
        self.peek().token_type == TokenType::EOF
    }

    fn peek(&self) -> (t: &Token)
        requires
            self.wf(),
        ensures
            t@ == self.toks()[self.current as int],
    {
        &self.tokens[self.current]
    }

    fn previous(&self) -> (t: &Token)
        requires
            self.wf(),
        ensures
            t@ == if self.current == 0 {
                self.toks()[0]
            } else {
                self.toks()[self.current - 1]
            },
    {
        if self.current == 0 {
            &self.tokens[0]
        } else {
            &self.tokens[self.current - 1]
        }
    }

    fn check(&self, token_type: TokenType) -> (r: bool)
        requires
            self.wf(),
        ensures
            r == (self.peek_type() != TokenType::EOF && self.peek_type() == token_type),
    {
        if self.is_at_end() {
            false
        } else {
            self.peek().token_type == token_type
        }
    }

    /// Moves the cursor one token on, unless it is at end-of-input.
    fn advance(&mut self)
        requires
            old(self).wf(),
        ensures
            final(self).wf(),
            final(self).toks() == old(self).toks(),
            final(self).current == if old(self).peek_type() == TokenType::EOF {
                old(self).current as int
            } else {
                old(self).current + 1
            },
    {
        if !self.is_at_end() {
            proof {
                vstd::std_specs::vec::axiom_spec_len(&self.tokens);
                assert(self.toks().len() == self.tokens@.len());
            }
            self.current = self.current + 1;
        }
    }

    /// Takes the expected token kind, or reports the current token's line
    /// with the given expectation message, consuming nothing.
    fn consume(&mut self, token_type: TokenType, message: &str) -> (r: Result<Token, ParserError>)
        requires
            old(self).wf(),
        ensures
            final(self).wf(),
            final(self).toks() == old(self).toks(),
            if old(self).peek_type() != TokenType::EOF && old(self).peek_type() == token_type {
                r matches Ok(t) && t@ == old(self).toks()[old(self).current as int] && final(self).current == old(self).current + 1
            } else {
                r matches Err(pe) && pe@ == (ErrV {
                    line: old(self).toks()[old(self).current as int].line,
                    message: message@,
                }) && final(self).current == old(self).current
            },
    {
        if self.check(token_type) {
            let t = self.peek().dup();
            self.advance();
            Ok(t)
        } else {
            let line_num = self.peek().line;
            Err(ParserError { line: line_num, message: String::from_str(message) })
        }
    }

    fn primary(&mut self) -> (r: Result<Box<Expr>, ParserError>)
        requires
            old(self).wf(),
        ensures
            final(self).wf(),
            final(self).toks() == old(self).toks(),
            old(self).current <= final(self).current,
            ({
                match sp_primary(old(self).toks(), old(self).current as int) {
                    Ok((e, p)) => r matches Ok(b) && b.deep_view() == e && wf_expr(e) && final(self).current == p && old(self).current < p,
                    Err((e, p)) => r matches Err(pe) && pe@ == e && final(self).current == p,
                }
            }),
        decreases self.toks().len() - self.current, 7int,
    {
        let t = self.peek().dup();
        match t.token_type {
            TokenType::False => {
                self.advance();
                Ok(Box::new(Expr::Literal(Literal::Bool(false))))
            },
            TokenType::True => {
                self.advance();
                Ok(Box::new(Expr::Literal(Literal::Bool(true))))
            },
            TokenType::Nil => {
                self.advance();
                Ok(Box::new(Expr::Literal(Literal::Nil)))
            },
            TokenType::String => {
                self.advance();
                Ok(Box::new(Expr::Literal(Literal::Str(t.literal))))
            },
            TokenType::Number(n) => {
                self.advance();
                Ok(Box::new(Expr::Literal(Literal::Num(n))))
            },
            TokenType::Identifier => {
                self.advance();
                Ok(Box::new(Expr::Variable(Variable { name: t })))
            },
            TokenType::LeftParen => {
                self.advance();
                match self.expression() {
                    Ok(e) => match self.consume(
                        TokenType::RightParen,
                        "Expect ')' after expression.",
                    ) {
                        Ok(_) => Ok(Box::new(Expr::Grouping(Grouping(e)))),
                        Err(pe) => Err(pe),
                    },
                    Err(pe) => Err(pe),
                }
            },
            _ => Err(
                ParserError { line: t.line, message: String::from_str("Something went wrong") },
            ),
        }
    }

    fn unary(&mut self) -> (r: Result<Box<Expr>, ParserError>)
        requires
            old(self).wf(),
        ensures
            final(self).wf(),
            final(self).toks() == old(self).toks(),
            old(self).current <= final(self).current,
            ({
                match sp_unary(old(self).toks(), old(self).current as int) {
                    Ok((e, p)) => r matches Ok(b) && b.deep_view() == e && wf_expr(e) && final(self).current == p && old(self).current < p,
                    Err((e, p)) => r matches Err(pe) && pe@ == e && final(self).current == p,
                }
            }),
        decreases self.toks().len() - self.current, 8int,
    {
        if self.check(TokenType::Bang) || self.check(TokenType::Minus) {
            let op = self.peek().dup();
            self.advance();
            match self.unary() {
                Ok(right) => Ok(Box::new(Expr::Unary(Unary(op, right)))),
                Err(pe) => Err(pe),
            }
        } else {
            self.primary()
        }
    }

    fn factor(&mut self) -> (r: Result<Box<Expr>, ParserError>)
        requires
            old(self).wf(),
        ensures
            final(self).wf(),
            final(self).toks() == old(self).toks(),
            old(self).current <= final(self).current,
            ({
                match sp_factor(old(self).toks(), old(self).current as int) {
                    Ok((e, p)) => r matches Ok(b) && b.deep_view() == e && wf_expr(e) && final(self).current == p && old(self).current < p,
                    Err((e, p)) => r matches Err(pe) && pe@ == e && final(self).current == p,
                }
            }),
        decreases self.toks().len() - self.current, 10int,
    {
        let ghost toks = self.toks();
        let ghost pos0 = self.current as int;
        let mut expr = match self.unary() {
            Ok(e) => e,
            Err(pe) => {
                return Err(pe);
            },
        };
        while self.check(TokenType::Slash) || self.check(TokenType::Star)
            invariant
                self.wf(),
                self.toks() == toks,
                toks == old(self).toks(),
                pos0 == old(self).current as int,
                pos0 < self.current <= toks.len(),
                wf_expr(expr.deep_view()),
                sp_factor(toks, pos0) == sp_factor_rest(
                    toks,
                    self.current as int,
                    expr.deep_view(),
                ),
            decreases toks.len() - self.current,
        {
            let op = self.peek().dup();
            self.advance();
            match self.unary() {
                Ok(right) => {
                    expr = Box::new(Expr::Binary(Binary(expr, op, right)));
                },
                Err(pe) => {
                    return Err(pe);
                },
            }
        }
        Ok(expr)
    }

    fn term(&mut self) -> (r: Result<Box<Expr>, ParserError>)
        requires
            old(self).wf(),
        ensures
            final(self).wf(),
            final(self).toks() == old(self).toks(),
            old(self).current <= final(self).current,
            ({
                match sp_term(old(self).toks(), old(self).current as int) {
                    Ok((e, p)) => r matches Ok(b) && b.deep_view() == e && wf_expr(e) && final(self).current == p && old(self).current < p,
                    Err((e, p)) => r matches Err(pe) && pe@ == e && final(self).current == p,
                }
            }),
        decreases self.toks().len() - self.current, 12int,
    {
        let ghost toks = self.toks();
        let ghost pos0 = self.current as int;
        let mut expr = match self.factor() {
            Ok(e) => e,
            Err(pe) => {
                return Err(pe);
            },
        };
        while self.check(TokenType::Minus) || self.check(TokenType::Plus)
            invariant
                self.wf(),
                self.toks() == toks,
                toks == old(self).toks(),
                pos0 == old(self).current as int,
                pos0 < self.current <= toks.len(),
                wf_expr(expr.deep_view()),
                sp_term(toks, pos0) == sp_term_rest(toks, self.current as int, expr.deep_view()),
            decreases toks.len() - self.current,
        {
            let op = self.peek().dup();
            self.advance();
            match self.factor() {
                Ok(right) => {
                    expr = Box::new(Expr::Binary(Binary(expr, op, right)));
                },
                Err(pe) => {
                    return Err(pe);
                },
            }
        }
        Ok(expr)
    }

    fn comparison(&mut self) -> (r: Result<Box<Expr>, ParserError>)
        requires
            old(self).wf(),
        ensures
            final(self).wf(),
            final(self).toks() == old(self).toks(),
            old(self).current <= final(self).current,
            ({
                match sp_comparison(old(self).toks(), old(self).current as int) {
                    Ok((e, p)) => r matches Ok(b) && b.deep_view() == e && wf_expr(e) && final(self).current == p && old(self).current < p,
                    Err((e, p)) => r matches Err(pe) && pe@ == e && final(self).current == p,
                }
            }),
        decreases self.toks().len() - self.current, 14int,
    {
        let ghost toks = self.toks();
        let ghost pos0 = self.current as int;
        let mut expr = match self.term() {
            Ok(e) => e,
            Err(pe) => {
                return Err(pe);
            },
        };
        while self.check(TokenType::Greater) || self.check(TokenType::GreaterEqual) || self.check(
            TokenType::Less,
        ) || self.check(TokenType::LessEqual)
            invariant
                self.wf(),
                self.toks() == toks,
                toks == old(self).toks(),
                pos0 == old(self).current as int,
                pos0 < self.current <= toks.len(),
                wf_expr(expr.deep_view()),
                sp_comparison(toks, pos0) == sp_comparison_rest(
                    toks,
                    self.current as int,
                    expr.deep_view(),
                ),
            decreases toks.len() - self.current,
        {
            let op = self.peek().dup();
            self.advance();
            match self.term() {
                Ok(right) => {
                    expr = Box::new(Expr::Binary(Binary(expr, op, right)));
                },
                Err(pe) => {
                    return Err(pe);
                },
            }
        }
        Ok(expr)
    }

    fn equality(&mut self) -> (r: Result<Box<Expr>, ParserError>)
        requires
            old(self).wf(),
        ensures
            final(self).wf(),
            final(self).toks() == old(self).toks(),
            old(self).current <= final(self).current,
            ({
                match sp_equality(old(self).toks(), old(self).current as int) {
                    Ok((e, p)) => r matches Ok(b) && b.deep_view() == e && wf_expr(e) && final(self).current == p && old(self).current < p,
                    Err((e, p)) => r matches Err(pe) && pe@ == e && final(self).current == p,
                }
            }),
        decreases self.toks().len() - self.current, 16int,
    {
        let ghost toks = self.toks();
        let ghost pos0 = self.current as int;
        let mut expr = match self.comparison() {
            Ok(e) => e,
            Err(pe) => {
                return Err(pe);
            },
        };
        while self.check(TokenType::BangEqual) || self.check(TokenType::EqualEqual)
            invariant
                self.wf(),
                self.toks() == toks,
                toks == old(self).toks(),
                pos0 == old(self).current as int,
                pos0 < self.current <= toks.len(),
                wf_expr(expr.deep_view()),
                sp_equality(toks, pos0) == sp_equality_rest(
                    toks,
                    self.current as int,
                    expr.deep_view(),
                ),
            decreases toks.len() - self.current,
        {
            let op = self.peek().dup();
            self.advance();
            match self.comparison() {
                Ok(right) => {
                    expr = Box::new(Expr::Binary(Binary(expr, op, right)));
                },
                Err(pe) => {
                    return Err(pe);
                },
            }
        }
        Ok(expr)
    }

    fn assignment(&mut self) -> (r: Result<Box<Expr>, ParserError>)
        requires
            old(self).wf(),
        ensures
            final(self).wf(),
            final(self).toks() == old(self).toks(),
            old(self).current <= final(self).current,
            ({
                match sp_assignment(old(self).toks(), old(self).current as int) {
                    Ok((e, p)) => r matches Ok(b) && b.deep_view() == e && wf_expr(e) && final(self).current == p && old(self).current < p,
                    Err((e, p)) => r matches Err(pe) && pe@ == e && final(self).current == p,
                }
            }),
        decreases self.toks().len() - self.current, 18int,
    {
        match self.equality() {
            Ok(expr) => {
                if self.check(TokenType::Equal) {
                    let equals = self.peek().dup();
                    self.advance();
                    match *expr {
                        Expr::Variable(v) => match self.assignment() {
                            Ok(value) => Ok(
                                Box::new(Expr::Assignment(Assignment { name: v.name, value })),
                            ),
                            Err(pe) => Err(pe),
                        },
                        _ => Err(
                            ParserError {
                                line: equals.line,
                                message: String::from_str("Invalid assignment target."),
                            },
                        ),
                    }
                } else {
                    Ok(expr)
                }
            },
            Err(pe) => Err(pe),
        }
    }

    fn expression(&mut self) -> (r: Result<Box<Expr>, ParserError>)
        requires
            old(self).wf(),
        ensures
            final(self).wf(),
            final(self).toks() == old(self).toks(),
            old(self).current <= final(self).current,
            ({
                match sp_expression(old(self).toks(), old(self).current as int) {
                    Ok((e, p)) => r matches Ok(b) && b.deep_view() == e && wf_expr(e) && final(self).current == p && old(self).current < p,
                    Err((e, p)) => r matches Err(pe) && pe@ == e && final(self).current == p,
                }
            }),
        decreases self.toks().len() - self.current, 20int,
    {
        self.assignment()
    }

    fn print_statement(&mut self) -> (r: Result<Box<Stmt>, ParserError>)
        requires
            old(self).wf(),
        ensures
            final(self).wf(),
            final(self).toks() == old(self).toks(),
            old(self).current <= final(self).current,
            ({
                match sp_print_statement(old(self).toks(), old(self).current as int) {
                    Ok((s, p)) => r matches Ok(b) && b.deep_view() == s && wf_stmt(s) && final(self).current == p && old(self).current < p,
                    Err((e, p)) => r matches Err(pe) && pe@ == e && final(self).current == p,
                }
            }),
        decreases self.toks().len() - self.current, 21int,
    {
        match self.expression() {
            Ok(expr) => match self.consume(TokenType::Semicolon, "Expect ';' after value.") {
                Ok(_) => Ok(Box::new(Stmt::PrintStmt(PrintStmt(expr)))),
                Err(pe) => Err(pe),
            },
            Err(pe) => Err(pe),
        }
    }

    fn expression_statement(&mut self) -> (r: Result<Box<Stmt>, ParserError>)
        requires
            old(self).wf(),
        ensures
            final(self).wf(),
            final(self).toks() == old(self).toks(),
            old(self).current <= final(self).current,
            ({
                match sp_expression_statement(old(self).toks(), old(self).current as int) {
                    Ok((s, p)) => r matches Ok(b) && b.deep_view() == s && wf_stmt(s) && final(self).current == p && old(self).current < p,
                    Err((e, p)) => r matches Err(pe) && pe@ == e && final(self).current == p,
                }
            }),
        decreases self.toks().len() - self.current, 21int,
    {
        match self.expression() {
            Ok(expr) => match self.consume(TokenType::Semicolon, "Expect ';' after value.") {
                Ok(_) => Ok(Box::new(Stmt::Expr(expr))),
                Err(pe) => Err(pe),
            },
            Err(pe) => Err(pe),
        }
    }

    fn statement(&mut self) -> (r: Result<Box<Stmt>, ParserError>)
        requires
            old(self).wf(),
        ensures
            final(self).wf(),
            final(self).toks() == old(self).toks(),
            old(self).current <= final(self).current,
            ({
                match sp_statement(old(self).toks(), old(self).current as int) {
                    Ok((s, p)) => r matches Ok(b) && b.deep_view() == s && wf_stmt(s) && final(self).current == p && old(self).current < p,
                    Err((e, p)) => r matches Err(pe) && pe@ == e && final(self).current == p,
                }
            }),
        decreases self.toks().len() - self.current, 22int,
    {
        if self.check(TokenType::Print) {
            self.advance();
            self.print_statement()
        } else {
            self.expression_statement()
        }
    }

    fn var_declaration(&mut self) -> (r: Result<Box<Stmt>, ParserError>)
        requires
            old(self).wf(),
        ensures
            final(self).wf(),
            final(self).toks() == old(self).toks(),
            old(self).current <= final(self).current,
            ({
                match sp_var_declaration(old(self).toks(), old(self).current as int) {
                    Ok((s, p)) => r matches Ok(b) && b.deep_view() == s && wf_stmt(s) && final(self).current == p && old(self).current < p,
                    Err((e, p)) => r matches Err(pe) && pe@ == e && final(self).current == p,
                }
            }),
        decreases self.toks().len() - self.current, 23int,
    {
        match self.consume(TokenType::Identifier, "Expect variable name.") {
            Ok(token) => {
                if self.check(TokenType::Equal) {
                    self.advance();
                    match self.expression() {
                        Ok(initializer) => match self.consume(
                            TokenType::Semicolon,
                            "Expect ';' after variable declaration",
                        ) {
                            Ok(_) => Ok(Box::new(Stmt::Var(Var { name: token, initializer }))),
                            Err(pe) => Err(pe),
                        },
                        Err(pe) => Err(pe),
                    }
                } else {
                    Err(
                        ParserError {
                            line: token.line,
                            message: String::from_str("No token matched during var_declaration"),
                        },
                    )
                }
            },
            Err(pe) => Err(pe),
        }
    }

    fn declaration(&mut self) -> (r: Result<Box<Stmt>, ParserError>)
        requires
            old(self).wf(),
        ensures
            final(self).wf(),
            final(self).toks() == old(self).toks(),
            old(self).current <= final(self).current,
            ({
                match sp_declaration(old(self).toks(), old(self).current as int) {
                    Ok((s, p)) => r matches Ok(b) && b.deep_view() == s && wf_stmt(s) && final(self).current == p && old(self).current < p,
                    Err((e, p)) => r matches Err(pe) && pe@ == e && final(self).current == p,
                }
            }),
        decreases self.toks().len() - self.current, 24int,
    {
        if self.check(TokenType::Var) {
            self.advance();
            self.var_declaration()
        } else {
            self.statement()
        }
    }

    /// Error recovery: discards tokens up to the next statement boundary —
    /// just past a semicolon, or before a token that starts a statement.
    fn synchronize(&mut self)
        requires
            old(self).wf(),
        ensures
            final(self).wf(),
            final(self).toks() == old(self).toks(),
            final(self).current as int == sp_synchronize(
                old(self).toks(),
                old(self).current as int,
            ),
            old(self).current <= final(self).current,
            old(self).peek_type() != TokenType::EOF ==> old(self).current < final(self).current,
    {
        let ghost toks = self.toks();
        self.advance();
        while !self.is_at_end()
            invariant
                self.wf(),
                self.toks() == toks,
                toks == old(self).toks(),
                old(self).current <= self.current,
                old(self).peek_type() != TokenType::EOF ==> old(self).current < self.current,
                sp_synchronize(toks, old(self).current as int) == sp_sync_loop(
                    toks,
                    self.current as int,
                ),
            decreases toks.len() - self.current,
        {
            if self.previous().token_type == TokenType::Semicolon {
                return;
            }
            let t = self.peek().token_type;
            match t {
                TokenType::Class => {
                    return;
                },
                TokenType::Fun => {
                    return;
                },
                TokenType::Var => {
                    return;
                },
                TokenType::For => {
                    return;
                },
                TokenType::If => {
                    return;
                },
                TokenType::While => {
                    return;
                },
                TokenType::Print => {
                    return;
                },
                TokenType::Return => {
                    return;
                },
                _ => {
                    self.advance();
                },
            }
        }
    }

    /// One full parse: the statements of the well-formed declarations and
    /// the errors of the malformed ones, exactly as `sp_program` assigns
    /// them to the tokens.
    #[verifier::rlimit(100)]
    pub fn parse(&mut self) -> (r: (Vec<Box<Stmt>>, Vec<ParserError>))
        requires
            old(self).wf(),
        ensures
            final(self).wf(),
            final(self).toks() == old(self).toks(),
            ({
                let (ss, es) = sp_program(old(self).toks(), old(self).current as int);
                &&& r.0.deep_view() == ss
                &&& r.1.deep_view() == es
                &&& forall|i: int| 0 <= i < ss.len() ==> wf_stmt(#[trigger] ss[i])
            }),
    {
        let ghost toks = self.toks();
        let ghost pos0 = self.current as int;
        let mut stmts: Vec<Box<Stmt>> = Vec::new();
        let mut errors: Vec<ParserError> = Vec::new();
        proof {
            assert(stmts.deep_view() =~= Seq::<StmtV>::empty());
            assert(errors.deep_view() =~= Seq::<ErrV>::empty());
        }
        while !self.is_at_end()
            invariant
                self.wf(),
                self.toks() == toks,
                toks == old(self).toks(),
                pos0 == old(self).current as int,
                pos0 <= self.current,
                sp_program(toks, pos0).0 == stmts.deep_view() + sp_program(
                    toks,
                    self.current as int,
                ).0,
                sp_program(toks, pos0).1 == errors.deep_view() + sp_program(
                    toks,
                    self.current as int,
                ).1,
                forall|i: int|
                    0 <= i < stmts.deep_view().len() ==> wf_stmt(#[trigger] stmts.deep_view()[i]),
            decreases toks.len() - self.current,
        {
            let ghost cur0 = self.current as int;
            let ghost stmts0 = stmts.deep_view();
            let ghost errs0 = errors.deep_view();
            match self.declaration() {
                Ok(s) => {
                    stmts.push(s);
                    proof {
                        let (sv, p) = match sp_declaration(toks, cur0) {
                            Ok(sp) => sp,
                            Err(_) => arbitrary(),
                        };
                        assert(stmts.deep_view() =~= stmts0 + seq![sv]);
                        assert(sp_program(toks, cur0).0 == seq![sv] + sp_program(toks, p).0);
                        assert(stmts0 + (seq![sv] + sp_program(toks, p).0) =~= (stmts0 + seq![sv])
                            + sp_program(toks, p).0);
                    }
                },
                Err(e) => {
                    self.synchronize();
                    errors.push(e);
                    proof {
                        let (ev, p) = match sp_declaration(toks, cur0) {
                            Ok(_) => arbitrary(),
                            Err(ep) => ep,
                        };
                        assert(errors.deep_view() =~= errs0 + seq![ev]);
                        let p2 = sp_synchronize(toks, p);
                        assert(sp_program(toks, cur0).1 == seq![ev] + sp_program(toks, p2).1);
                        assert(errs0 + (seq![ev] + sp_program(toks, p2).1) =~= (errs0 + seq![ev])
                            + sp_program(toks, p2).1);
                    }
                },
            }
        }
        proof {
            assert(sp_program(toks, self.current as int).0 =~= Seq::<StmtV>::empty());
            assert(sp_program(toks, self.current as int).1 =~= Seq::<ErrV>::empty());
            assert(stmts.deep_view() + sp_program(toks, self.current as int).0
                =~= stmts.deep_view());
            assert(errors.deep_view() + sp_program(toks, self.current as int).1
                =~= errors.deep_view());
        }
        (stmts, errors)
    }
}

} // verus!
