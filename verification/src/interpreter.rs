//! The evaluator: walks statements and expressions, producing runtime values
//! and print output against the mutable variable store. Execution stops at
//! the first failing statement and reports its line-tagged error.
//!
//! The ghost model is `sp_eval` for expressions, `sp_exec_stmt` for single
//! statements and `sp_interpret` for statement sequences; `interpret` is
//! proved to leave the store and the collected output exactly as the model
//! says.

use crate::ast::{
    nan_msg, not_string_msg, sp_render, val_eq, val_truthy, Expr, ExprV, Literal, ValueV,
};
use crate::env::{undefined_var_msg, Environment};
use crate::numbers::{
    num_add, num_add_exec, num_div, num_div_exec, num_ge, num_ge_exec, num_gt,
    num_gt_exec, num_le, num_le_exec, num_lt, num_lt_exec, num_mul, num_mul_exec, num_neg,
    num_neg_exec, num_sub, num_sub_exec,
};
use crate::scanner::{Token, TokenType, TokenV};
use crate::statement::{Stmt, StmtV};
use crate::ErrV;
use vstd::prelude::*;

verus! {

/// A runtime failure: the source line of the operation that failed, and a
/// message. A runtime error aborts the rest of the current interpretation.
#[derive(Debug)]
pub struct RuntimeError(pub usize, pub String);

impl View for RuntimeError {
    type V = ErrV;

    open spec fn view(&self) -> ErrV {
        ErrV { line: self.0 as nat, message: self.1@ }
    }
}

impl DeepView for RuntimeError {
    type V = ErrV;

    open spec fn deep_view(&self) -> ErrV {
        self.view()
    }
}

/// The variable store as the model sees it.
pub type EnvV = Map<Seq<char>, ValueV>;

/// The operator kinds the grammar can put in a binary expression.
pub open spec fn is_binary_op(t: TokenType) -> bool {
    ||| t == TokenType::Greater
    ||| t == TokenType::GreaterEqual
    ||| t == TokenType::Less
    ||| t == TokenType::LessEqual
    ||| t == TokenType::Minus
    ||| t == TokenType::Plus
    ||| t == TokenType::Slash
    ||| t == TokenType::Star
    ||| t == TokenType::BangEqual
    ||| t == TokenType::EqualEqual
}

/// An expression as the grammar produces it: every operator token carries
/// one of the operator kinds of its rule. The evaluator is specified on
/// such expressions only.
pub open spec fn wf_expr(e: ExprV) -> bool
    decreases e,
{
    match e {
        ExprV::Binary(l, op, r) => is_binary_op(op.token_type) && wf_expr(*l) && wf_expr(*r),
        ExprV::Literal(_) => true,
        ExprV::Unary(op, r) => (op.token_type == TokenType::Minus || op.token_type
            == TokenType::Bang) && wf_expr(*r),
        ExprV::Grouping(g) => wf_expr(*g),
        ExprV::Variable(_) => true,
        ExprV::Assignment(_, v) => wf_expr(*v),
    }
}

/// A statement whose expressions are well formed.
pub open spec fn wf_stmt(s: StmtV) -> bool {
    match s {
        StmtV::Expr(e) => wf_expr(e),
        StmtV::Print(e) => wf_expr(e),
        StmtV::Var(_, e) => wf_expr(e),
    }
}

/// An undefined-variable error at the name token's line.
pub open spec fn undef_err(t: TokenV) -> ErrV {
    ErrV { line: t.line, message: undefined_var_msg(t.lexeme) }
}

/// What a binary operator yields on two already-evaluated operands, or the
/// type error it raises at the operator's line. Arithmetic and comparison
/// need numbers on both sides; `+` also accepts two texts; `==`/`!=` accept
/// any values. The final branch is never reached on grammar-produced
/// expressions.
pub open spec fn sp_binary(op: TokenV, lv: ValueV, rv: ValueV) -> Result<ValueV, ErrV> {
    let line = op.line;
    if op.token_type == TokenType::BangEqual {
        Ok(ValueV::Bool(!val_eq(lv, rv)))
    } else if op.token_type == TokenType::EqualEqual {
        Ok(ValueV::Bool(val_eq(lv, rv)))
    } else if op.token_type == TokenType::Plus {
        match (lv, rv) {
            (ValueV::Num(a), ValueV::Num(b)) => Ok(ValueV::Num(num_add(a, b))),
            _ => match lv {
                ValueV::Str(s1) => match rv {
                    ValueV::Str(s2) => Ok(ValueV::Str(s1 + s2)),
                    _ => Err(ErrV { line, message: not_string_msg(rv) }),
                },
                _ => Err(ErrV { line, message: not_string_msg(lv) }),
            },
        }
    } else {
        match lv {
            ValueV::Num(a) => match rv {
                ValueV::Num(b) => if op.token_type == TokenType::Greater {
                    Ok(ValueV::Bool(num_gt(a, b)))
                } else if op.token_type == TokenType::GreaterEqual {
                    Ok(ValueV::Bool(num_ge(a, b)))
                } else if op.token_type == TokenType::Less {
                    Ok(ValueV::Bool(num_lt(a, b)))
                } else if op.token_type == TokenType::LessEqual {
                    Ok(ValueV::Bool(num_le(a, b)))
                } else if op.token_type == TokenType::Minus {
                    Ok(ValueV::Num(num_sub(a, b)))
                } else if op.token_type == TokenType::Slash {
                    Ok(ValueV::Num(num_div(a, b)))
                } else if op.token_type == TokenType::Star {
                    Ok(ValueV::Num(num_mul(a, b)))
                } else {
                    Err(ErrV { line, message: Seq::empty() })
                },
                _ => Err(ErrV { line, message: nan_msg(rv) }),
            },
            _ => Err(ErrV { line, message: nan_msg(lv) }),
        }
    }
}

/// Expression evaluation: the store after evaluation (assignments inside
/// the expression take effect even when a later part fails), and the value
/// or the first error.
pub open spec fn sp_eval(env: EnvV, e: ExprV) -> (EnvV, Result<ValueV, ErrV>)
    decreases e,
{
    match e {
        ExprV::Literal(v) => (env, Ok(v)),
        ExprV::Grouping(g) => sp_eval(env, *g),
        ExprV::Variable(t) => if env.contains_key(t.lexeme) {
            (env, Ok(env[t.lexeme]))
        } else {
            (env, Err(undef_err(t)))
        },
        ExprV::Assignment(t, vexp) => {
            let (env1, r1) = sp_eval(env, *vexp);
            match r1 {
                Ok(v) => if env1.contains_key(t.lexeme) {
                    (env1.insert(t.lexeme, v), Ok(v))
                } else {
                    (env1, Err(undef_err(t)))
                },
                Err(e1) => (env1, Err(e1)),
            }
        },
        ExprV::Unary(op, rexp) => {
            let (env1, r1) = sp_eval(env, *rexp);
            match r1 {
                Ok(v) => if op.token_type == TokenType::Minus {
                    match v {
                        ValueV::Num(n) => (env1, Ok(ValueV::Num(num_neg(n)))),
                        _ => (env1, Err(ErrV { line: op.line, message: nan_msg(v) })),
                    }
                } else if op.token_type == TokenType::Bang {
                    (env1, Ok(ValueV::Bool(!val_truthy(v))))
                } else {
                    (env1, Ok(v))
                },
                Err(e1) => (env1, Err(e1)),
            }
        },
        ExprV::Binary(lexp, op, rexp) => {
            let (env1, r1) = sp_eval(env, *lexp);
            match r1 {
                Ok(lv) => {
                    let (env2, r2) = sp_eval(env1, *rexp);
                    match r2 {
                        Ok(rv) => (env2, sp_binary(op, lv, rv)),
                        Err(e2) => (env2, Err(e2)),
                    }
                },
                Err(e1) => (env1, Err(e1)),
            }
        },
    }
}

/// One statement: the store afterwards, what it printed, and its error if
/// it failed.
pub open spec fn sp_exec_stmt(env: EnvV, s: StmtV) -> (EnvV, Seq<Seq<char>>, Option<ErrV>) {
    match s {
        StmtV::Expr(e) => {
            let (env1, r) = sp_eval(env, e);
            match r {
                Ok(_) => (env1, Seq::empty(), None),
                Err(er) => (env1, Seq::empty(), Some(er)),
            }
        },
        StmtV::Print(e) => {
            let (env1, r) = sp_eval(env, e);
            match r {
                Ok(v) => (env1, seq![sp_render(v)], None),
                Err(er) => (env1, Seq::empty(), Some(er)),
            }
        },
        StmtV::Var(t, e) => {
            let (env1, r) = sp_eval(env, e);
            match r {
                Ok(v) => (env1.insert(t.lexeme, v), Seq::empty(), None),
                Err(er) => (env1, Seq::empty(), Some(er)),
            }
        },
    }
}

/// What interpreting a statement sequence leaves behind: the store, the
/// print output up to the failure point, and the first error if any.
pub struct InterpOut {
    pub env: EnvV,
    pub output: Seq<Seq<char>>,
    pub error: Option<ErrV>,
}

/// Statements run strictly in order; the first failure stops the run and is
/// reported, and the output already produced stands.
pub open spec fn sp_interpret(env: EnvV, stmts: Seq<StmtV>) -> InterpOut
    decreases stmts.len(),
{
    if stmts.len() == 0 {
        InterpOut { env, output: Seq::empty(), error: None }
    } else {
        let (env1, out1, err) = sp_exec_stmt(env, stmts[0]);
        match err {
            Some(e) => InterpOut { env: env1, output: out1, error: Some(e) },
            None => {
                let rest = sp_interpret(env1, stmts.subrange(1, stmts.len() as int));
                InterpOut { env: rest.env, output: out1 + rest.output, error: rest.error }
            },
        }
    }
}

/// Applies a binary operator to two evaluated operands.
fn apply_binary(op: &Token, left: Literal, right: Literal) -> (r: Result<Literal, RuntimeError>)
    requires
        is_binary_op(op.token_type),
    ensures
        match (r, sp_binary(op@, left@, right@)) {
            (Ok(l), Ok(v)) => l@ == v,
            (Err(re), Err(e)) => re@ == e,
            _ => false,
        },
{
    match op.token_type {
        TokenType::BangEqual => Ok(Literal::Bool(!left.equals(&right))),
        TokenType::EqualEqual => Ok(Literal::Bool(left.equals(&right))),
        TokenType::Plus => {
            let ln = left.try_num();
            let rn = right.try_num();
            match (ln, rn) {
                (Ok(a), Ok(b)) => Ok(Literal::Num(num_add_exec(a, b))),
                _ => match left.try_string() {
                    Ok(s1) => match right.try_string() {
                        Ok(s2) => Ok(Literal::Str(s1.concat(s2.as_str()))),
                        Err(m) => Err(RuntimeError(op.line, m)),
                    },
                    Err(m) => Err(RuntimeError(op.line, m)),
                },
            }
        },
        _ => {
            let a = match left.try_num() {
                Ok(a) => a,
                Err(m) => {
                    return Err(RuntimeError(op.line, m));
                },
            };
            let b = match right.try_num() {
                Ok(b) => b,
                Err(m) => {
                    return Err(RuntimeError(op.line, m));
                },
            };
            match op.token_type {
                TokenType::Greater => Ok(Literal::Bool(num_gt_exec(a, b))),
                TokenType::GreaterEqual => Ok(Literal::Bool(num_ge_exec(a, b))),
                TokenType::Less => Ok(Literal::Bool(num_lt_exec(a, b))),
                TokenType::LessEqual => Ok(Literal::Bool(num_le_exec(a, b))),
                TokenType::Minus => Ok(Literal::Num(num_sub_exec(a, b))),
                TokenType::Slash => Ok(Literal::Num(num_div_exec(a, b))),
                TokenType::Star => Ok(Literal::Num(num_mul_exec(a, b))),
                _ => vstd::pervasive::unreached(),
            }
        },
    }
}

/// The tree-walking evaluator: the variable store of one run, and the lines
/// its `print` statements have emitted, in order.
pub struct Interpreter {
    pub environment: Environment,
    pub output: Vec<String>,
}

impl Interpreter {
    /// The store keeps its invariant.
    pub open spec fn wf(&self) -> bool {
        self.environment.wf()
    }

    /// A fresh interpreter: empty store, no output.
    pub fn new() -> (r: Interpreter)
        ensures
            r.wf(),
            r.environment@ == Map::<Seq<char>, ValueV>::empty(),
            r.output.deep_view() == Seq::<Seq<char>>::empty(),
    {
        let r = Interpreter { environment: Environment::new(), output: Vec::new() };
        proof {
            assert(r.output.deep_view() =~= Seq::<Seq<char>>::empty());
        }
        r
    }

    /// Evaluates one expression, threading the store through assignments.
    fn evaluate(&mut self, expr: &Expr) -> (r: Result<Literal, RuntimeError>)
        requires
            old(self).wf(),
            wf_expr(expr@),
        ensures
            final(self).wf(),
            final(self).output == old(self).output,
            ({
                let (env2, res) = sp_eval(old(self).environment@, expr@);
                &&& final(self).environment@ == env2
                &&& match (r, res) {
                    (Ok(lv), Ok(v)) => lv@ == v,
                    (Err(re), Err(e)) => re@ == e,
                    _ => false,
                }
            }),
        decreases expr,
    {
        match expr {
            Expr::Literal(l) => Ok(l.clone()),
            Expr::Grouping(g) => self.evaluate(&*g.0),
            Expr::Variable(v) => self.environment.get(&v.name),
            Expr::Assignment(a) => {
                match self.evaluate(&*a.value) {
                    Ok(value) => match self.environment.assign(&a.name, value.clone()) {
                        Ok(_) => Ok(value),
                        Err(e) => Err(e),
                    },
                    Err(e) => Err(e),
                }
            },
            Expr::Unary(u) => {
                match self.evaluate(&*u.1) {
                    Ok(right) => match u.0.token_type {
                        TokenType::Minus => match right.try_num() {
                            Ok(n) => Ok(Literal::Num(num_neg_exec(n))),
                            Err(m) => Err(RuntimeError(u.0.line, m)),
                        },
                        TokenType::Bang => Ok(Literal::Bool(!right.is_truthy())),
                        _ => Ok(right),
                    },
                    Err(e) => Err(e),
                }
            },
            Expr::Binary(b) => {
                match self.evaluate(&*b.0) {
                    Ok(left) => match self.evaluate(&*b.2) {
                        Ok(right) => apply_binary(&b.1, left, right),
                        Err(e) => Err(e),
                    },
                    Err(e) => Err(e),
                }
            },
        }
    }

    /// Executes one statement: evaluates, prints, or declares.
    fn execute(&mut self, stmt: &Stmt) -> (r: Result<(), RuntimeError>)
        requires
            old(self).wf(),
            wf_stmt(stmt@),
        ensures
            final(self).wf(),
            ({
                let (env1, out1, err) = sp_exec_stmt(old(self).environment@, stmt@);
                &&& final(self).environment@ == env1
                &&& final(self).output.deep_view() == old(self).output.deep_view() + out1
                &&& match (r, err) {
                    (Ok(_), None) => true,
                    (Err(re), Some(e)) => re@ == e,
                    _ => false,
                }
            }),
    {
        let ghost out0 = self.output.deep_view();
        match stmt {
            Stmt::Expr(e) => {
                let r = self.evaluate(&*e);
                proof {
                    assert(self.output.deep_view() =~= out0 + Seq::<Seq<char>>::empty());
                }
                match r {
                    Ok(_) => Ok(()),
                    Err(er) => Err(er),
                }
            },
            Stmt::PrintStmt(p) => {
                match self.evaluate(&*p.0) {
                    Ok(v) => {
                        let text = v.render();
                        self.output.push(text);
                        proof {
                            assert(self.output.deep_view() =~= out0 + seq![
                                sp_render(v@),
                            ]);
                        }
                        Ok(())
                    },
                    Err(er) => {
                        proof {
                            assert(self.output.deep_view() =~= out0 + Seq::<Seq<char>>::empty());
                        }
                        Err(er)
                    },
                }
            },
            Stmt::Var(v) => {
                match self.evaluate(&*v.initializer) {
                    Ok(val) => {
                        self.environment.define(&v.name, val);
                        proof {
                            assert(self.output.deep_view() =~= out0 + Seq::<Seq<char>>::empty());
                        }
                        Ok(())
                    },
                    Err(er) => {
                        proof {
                            assert(self.output.deep_view() =~= out0 + Seq::<Seq<char>>::empty());
                        }
                        Err(er)
                    },
                }
            },
        }
    }

    /// Runs the statements strictly in order against this interpreter's
    /// store. The first failing statement stops the run and its error is
    /// returned; the output produced before it stands in `output`.
    pub fn interpret(&mut self, statements: Vec<Box<Stmt>>) -> (r: Result<(), RuntimeError>)
        requires
            old(self).wf(),
            forall|i: int|
                0 <= i < statements@.len() ==> wf_stmt(#[trigger] statements@[i].to_view()),
        ensures
            final(self).wf(),
            ({
                let out = sp_interpret(old(self).environment@, statements.deep_view());
                &&& final(self).environment@ == out.env
                &&& final(self).output.deep_view() == old(self).output.deep_view() + out.output
                &&& match (r, out.error) {
                    (Ok(_), None) => true,
                    (Err(re), Some(e)) => re@ == e,
                    _ => false,
                }
            }),
    {
        let ghost dv = statements.deep_view();
        let ghost env0 = self.environment@;
        let ghost out0 = self.output.deep_view();
        let n = statements.len();
        let mut idx: usize = 0;
        proof {
            assert(dv.subrange(0, dv.len() as int) =~= dv);
        }
        while idx < n
            invariant
                self.wf(),
                idx <= n,
                n == statements@.len(),
                env0 == old(self).environment@,
                out0 == old(self).output.deep_view(),
                dv == statements.deep_view(),
                dv.len() == n,
                forall|i: int| 0 <= i < n ==> wf_stmt(#[trigger] statements@[i].to_view()),
                self.output.deep_view().len() >= out0.len(),
                self.output.deep_view().subrange(0, out0.len() as int) == out0,
                ({
                    let full = sp_interpret(env0, dv);
                    let rest = sp_interpret(self.environment@, dv.subrange(idx as int, n as int));
                    &&& full.env == rest.env
                    &&& full.error == rest.error
                    &&& full.output == self.output.deep_view().subrange(
                        out0.len() as int,
                        self.output.deep_view().len() as int,
                    ) + rest.output
                }),
            decreases n - idx,
        {
            let ghost pre_out = self.output.deep_view();
            let ghost pre_env = self.environment@;
            let ghost tail = dv.subrange(idx as int, n as int);
            proof {
                assert(tail[0] == dv[idx as int]);
                assert(statements@[idx as int].to_view() == dv[idx as int]);
                assert(tail.subrange(1, tail.len() as int) =~= dv.subrange(
                    idx as int + 1,
                    n as int,
                ));
            }
            let sb = &statements[idx];
            let r = self.execute(&**sb);
            match r {
                Ok(_) => {},
                Err(er) => {
                    proof {
                        let (env1, out1, err) = sp_exec_stmt(pre_env, dv[idx as int]);
                        assert(self.output.deep_view() =~= pre_out + out1);
                        assert(self.output.deep_view().subrange(0, out0.len() as int) =~= out0);
                        assert(self.output.deep_view().subrange(
                            out0.len() as int,
                            self.output.deep_view().len() as int,
                        ) =~= pre_out.subrange(out0.len() as int, pre_out.len() as int) + out1);
                        assert(sp_interpret(env0, dv).output =~= self.output.deep_view().subrange(
                            out0.len() as int,
                            self.output.deep_view().len() as int,
                        ));
                        assert(self.output.deep_view() =~= out0 + sp_interpret(env0, dv).output);
                        assert(sp_interpret(env0, dv).env == self.environment@);
                        assert(sp_interpret(env0, dv).error == Some(er@));
                    }
                    return Err(er);
                },
            }
            idx += 1;
            proof {
                assert(self.output.deep_view().subrange(0, out0.len() as int) =~= out0);
                let full = sp_interpret(env0, dv);
                let rest_new = sp_interpret(self.environment@, dv.subrange(idx as int, n as int));
                let (env1, out1, err) = sp_exec_stmt(pre_env, dv[idx - 1]);
                assert(self.output.deep_view() =~= pre_out + out1);
                assert(full.output =~= self.output.deep_view().subrange(
                    out0.len() as int,
                    self.output.deep_view().len() as int,
                ) + rest_new.output);
            }
        }
        proof {
            assert(dv.subrange(n as int, n as int) =~= Seq::<StmtV>::empty());
            let full = sp_interpret(env0, dv);
            assert(full.output =~= self.output.deep_view().subrange(
                out0.len() as int,
                self.output.deep_view().len() as int,
            ));
            assert(self.output.deep_view() =~= out0 + full.output);
        }
        Ok(())
    }
}

} // verus!
