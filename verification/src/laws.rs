//! Laws of the pipeline, stated over the ghost models and proved once and
//! for all: round trips through the scanner, parse shape under operator
//! precedence, the type-error boundary of `+`, variable lookup failure, the
//! equality semantics of values, and the scanner's resilience to an
//! unterminated string.

use crate::ast::{not_string_msg, val_eq, ValueV};
use crate::env::undefined_var_msg;
use crate::interpreter::{sp_eval, EnvV};
use crate::numbers::{is_digit, is_number_text, num_add, num_mul, num_of_text};
use crate::parser::sp_expression;
use crate::scanner::{
    count_nl, digits_end, eof_token, find_quote, spec_scan, spec_scan_from, TokenType,
    TokenV,
};
use crate::ast::ExprV;
use crate::ErrV;
use vstd::prelude::*;

verus! {

/// The first quote at or after `i` is the one at `j`.
proof fn lemma_find_quote_at(src: Seq<char>, i: int, j: int)
    requires
        0 <= i <= j < src.len(),
        src[j] == '"',
        forall|k: int| i <= k < j ==> src[k] != '"',
    ensures
        find_quote(src, i) == Some(j),
    decreases j - i,
{
    if i < j {
        lemma_find_quote_at(src, i + 1, j);
    }
}

/// With no quote at or after `i`, there is nothing to find.
proof fn lemma_find_quote_none(src: Seq<char>, i: int)
    requires
        0 <= i,
        forall|k: int| i <= k < src.len() ==> src[k] != '"',
    ensures
        find_quote(src, i) == None::<int>,
    decreases src.len() - i,
{
    if i < src.len() {
        lemma_find_quote_none(src, i + 1);
    }
}

/// A digit run `[i, j)` followed by a non-digit (or the end) ends at `j`.
proof fn lemma_digits_end_at(src: Seq<char>, i: int, j: int)
    requires
        0 <= i <= j <= src.len(),
        forall|k: int| i <= k < j ==> is_digit(#[trigger] src[k]),
        j == src.len() || !is_digit(src[j]),
    ensures
        digits_end(src, i) == j,
    decreases j - i,
{
    if i < j {
        lemma_digits_end_at(src, i + 1, j);
    }
}

/// Round trip of a string literal: scanning `"s"` (for any `s` without a
/// quote) yields exactly one string token carrying `s` and the end-of-input
/// token, with no scan error; parsing those tokens yields the literal
/// expression; and evaluating that literal in any store yields the text
/// value `s` exactly, leaving the store unchanged.
pub proof fn lemma_string_round_trip(s: Seq<char>, env: EnvV)
    requires
        forall|i: int| 0 <= i < s.len() ==> s[i] != '"',
    ensures
        ({
            let src = seq!['"'] + s + seq!['"'];
            let out = spec_scan(src);
            &&& out.errors == Seq::<ErrV>::empty()
            &&& out.tokens.len() == 2
            &&& out.tokens[0].token_type == TokenType::String
            &&& out.tokens[0].literal == s
            &&& out.tokens[0].lexeme == src
            &&& out.tokens[0].line == 1
            &&& out.tokens[1].token_type == TokenType::EOF
            &&& sp_expression(out.tokens, 0) == Ok::<(ExprV, int), (ErrV, int)>(
                (ExprV::Literal(ValueV::Str(s)), 1),
            )
            &&& sp_eval(env, ExprV::Literal(ValueV::Str(s))) == (
                env,
                Ok::<ValueV, ErrV>(ValueV::Str(s)),
            )
        }),
{
    reveal_with_fuel(spec_scan_from, 3);
    reveal_with_fuel(crate::parser::sp_expression, 2);
    reveal_with_fuel(crate::parser::sp_assignment, 2);
    reveal_with_fuel(crate::parser::sp_equality, 2);
    reveal_with_fuel(crate::parser::sp_equality_rest, 2);
    reveal_with_fuel(crate::parser::sp_comparison, 2);
    reveal_with_fuel(crate::parser::sp_comparison_rest, 2);
    reveal_with_fuel(crate::parser::sp_term, 2);
    reveal_with_fuel(crate::parser::sp_term_rest, 2);
    reveal_with_fuel(crate::parser::sp_factor, 2);
    reveal_with_fuel(crate::parser::sp_factor_rest, 2);
    reveal_with_fuel(crate::parser::sp_unary, 2);
    reveal_with_fuel(crate::parser::sp_primary, 2);
    let src = seq!['"'] + s + seq!['"'];
    let j = s.len() as int + 1;
    assert(src.len() == s.len() + 2);
    assert(src[0] == '"');
    assert(src[j] == '"');
    assert(forall|k: int| 1 <= k < j ==> src[k] == s[k - 1] && src[k] != '"');
    lemma_find_quote_at(src, 1, j);
    let out = spec_scan(src);
    assert(src.subrange(0, j + 1) =~= src);
    assert(src.subrange(1, j) =~= s);
    assert(spec_scan_from(src, j + 1, 1 + count_nl(src, 1, j)).tokens =~= seq![
        eof_token(1 + count_nl(src, 1, j)),
    ]);
    assert(out.tokens =~= seq![
        TokenV { token_type: TokenType::String, lexeme: src, literal: s, line: 1 },
        eof_token(1 + count_nl(src, 1, j)),
    ]);
    assert(out.errors =~= Seq::<ErrV>::empty());
}

/// Scanning a valid numeric literal text (digits, optionally a dot and more
/// digits) yields exactly one number token whose attached value is the
/// text-to-double conversion `num_of_text` of that text, and the
/// end-of-input token, with no scan error; and parsing those tokens yields
/// the numeric literal expression.
#[verifier::rlimit(100)]
pub proof fn lemma_number_round_trip(s: Seq<char>)
    requires
        is_number_text(s),
        is_digit(s[0]),
    ensures
        ({
            let out = spec_scan(s);
            &&& out.errors == Seq::<ErrV>::empty()
            &&& out.tokens.len() == 2
            &&& out.tokens[0].token_type == TokenType::Number(num_of_text(s))
            &&& out.tokens[0].lexeme == s
            &&& out.tokens[0].line == 1
            &&& out.tokens[1].token_type == TokenType::EOF
            &&& sp_expression(out.tokens, 0) == Ok::<(ExprV, int), (ErrV, int)>(
                (ExprV::Literal(ValueV::Num(num_of_text(s))), 1),
            )
        }),
{
    reveal_with_fuel(spec_scan_from, 3);
    reveal_with_fuel(crate::parser::sp_expression, 2);
    reveal_with_fuel(crate::parser::sp_assignment, 2);
    reveal_with_fuel(crate::parser::sp_equality, 2);
    reveal_with_fuel(crate::parser::sp_equality_rest, 2);
    reveal_with_fuel(crate::parser::sp_comparison, 2);
    reveal_with_fuel(crate::parser::sp_comparison_rest, 2);
    reveal_with_fuel(crate::parser::sp_term, 2);
    reveal_with_fuel(crate::parser::sp_term_rest, 2);
    reveal_with_fuel(crate::parser::sp_factor, 2);
    reveal_with_fuel(crate::parser::sp_factor_rest, 2);
    reveal_with_fuel(crate::parser::sp_unary, 2);
    reveal_with_fuel(crate::parser::sp_primary, 2);
    let len = s.len() as int;
    let out = spec_scan(s);
    if crate::numbers::all_digits(s) {
        lemma_digits_end_at(s, 0, len);
        assert(s.subrange(0, len) =~= s);
        assert(spec_scan_from(s, len, 1).tokens =~= seq![eof_token(1)]);
        assert(out.tokens =~= seq![
            TokenV { token_type: TokenType::Number(num_of_text(s)), lexeme: s, literal: s, line: 1 },
            eof_token(1),
        ]);
        assert(out.errors =~= Seq::<ErrV>::empty());
    } else {
        let k = choose|k: int|
            1 <= k <= s.len() - 2 && #[trigger] s[k] == '.' && crate::numbers::all_digits(
                s.subrange(0, k),
            ) && crate::numbers::all_digits(s.subrange(k + 1, s.len() as int));
        assert forall|i: int| 0 <= i < k implies is_digit(#[trigger] s[i]) by {
            assert(s.subrange(0, k)[i] == s[i]);
        }
        assert(!is_digit('.'));
        lemma_digits_end_at(s, 0, k);
        assert forall|i: int| k + 1 <= i < len implies is_digit(#[trigger] s[i]) by {
            assert(s.subrange(k + 1, len)[i - k - 1] == s[i]);
        }
        lemma_digits_end_at(s, k + 1, len);
        assert(s.subrange(0, len) =~= s);
        assert(spec_scan_from(s, len, 1).tokens =~= seq![eof_token(1)]);
        assert(out.tokens =~= seq![
            TokenV { token_type: TokenType::Number(num_of_text(s)), lexeme: s, literal: s, line: 1 },
            eof_token(1),
        ]);
        assert(out.errors =~= Seq::<ErrV>::empty());
    }
}

/// Evaluating a literal, or a grouping of a literal, is pure: against any
/// two stores (fresh or not) it yields the same value, and leaves each
/// store untouched.
pub proof fn lemma_literal_eval_idempotent(v: ValueV, env1: EnvV, env2: EnvV)
    ensures
        sp_eval(env1, ExprV::Literal(v)) == (env1, Ok::<ValueV, ErrV>(v)),
        sp_eval(env2, ExprV::Literal(v)) == (env2, Ok::<ValueV, ErrV>(v)),
        sp_eval(env1, ExprV::Grouping(Box::new(ExprV::Literal(v)))) == (
            env1,
            Ok::<ValueV, ErrV>(v),
        ),
        sp_eval(env2, ExprV::Grouping(Box::new(ExprV::Literal(v)))) == (
            env2,
            Ok::<ValueV, ErrV>(v),
        ),
{
    reveal_with_fuel(sp_eval, 3);
}

/// Precedence: `NUMBER + NUMBER * NUMBER` parses with the multiplication
/// bound tighter — as `a + (b * c)`, not `(a + b) * c` — and evaluates to
/// the sum of the first number and the product of the other two.
pub proof fn lemma_precedence(
    t1: TokenV,
    plus: TokenV,
    t2: TokenV,
    star: TokenV,
    t3: TokenV,
    eof: TokenV,
    n1: u64,
    n2: u64,
    n3: u64,
    env: EnvV,
)
    requires
        t1.token_type == TokenType::Number(n1),
        plus.token_type == TokenType::Plus,
        t2.token_type == TokenType::Number(n2),
        star.token_type == TokenType::Star,
        t3.token_type == TokenType::Number(n3),
        eof.token_type == TokenType::EOF,
    ensures
        ({
            let parsed = ExprV::Binary(
                Box::new(ExprV::Literal(ValueV::Num(n1))),
                plus,
                Box::new(
                    ExprV::Binary(
                        Box::new(ExprV::Literal(ValueV::Num(n2))),
                        star,
                        Box::new(ExprV::Literal(ValueV::Num(n3))),
                    ),
                ),
            );
            &&& sp_expression(seq![t1, plus, t2, star, t3, eof], 0) == Ok::<
                (ExprV, int),
                (ErrV, int),
            >((parsed, 5))
            &&& sp_eval(env, parsed) == (
                env,
                Ok::<ValueV, ErrV>(ValueV::Num(num_add(n1, num_mul(n2, n3)))),
            )
        }),
{
    let toks = seq![t1, plus, t2, star, t3, eof];
    let lit1 = ExprV::Literal(ValueV::Num(n1));
    let lit2 = ExprV::Literal(ValueV::Num(n2));
    let lit3 = ExprV::Literal(ValueV::Num(n3));
    let mul = ExprV::Binary(Box::new(lit2), star, Box::new(lit3));
    let parsed = ExprV::Binary(Box::new(lit1), plus, Box::new(mul));
    assert(toks[0] == t1 && toks[1] == plus && toks[2] == t2 && toks[3] == star && toks[4] == t3
        && toks[5] == eof);
    assert(crate::parser::sp_unary(toks, 0) == Ok::<(ExprV, int), (ErrV, int)>((lit1, 1)));
    assert(crate::parser::sp_factor(toks, 0) == Ok::<(ExprV, int), (ErrV, int)>((lit1, 1)));
    assert(crate::parser::sp_unary(toks, 2) == Ok::<(ExprV, int), (ErrV, int)>((lit2, 3)));
    assert(crate::parser::sp_unary(toks, 4) == Ok::<(ExprV, int), (ErrV, int)>((lit3, 5)));
    assert(crate::parser::sp_factor_rest(toks, 5, mul) == Ok::<(ExprV, int), (ErrV, int)>(
        (mul, 5),
    ));
    assert(crate::parser::sp_factor_rest(toks, 3, lit2) == Ok::<(ExprV, int), (ErrV, int)>(
        (mul, 5),
    ));
    assert(crate::parser::sp_factor(toks, 2) == Ok::<(ExprV, int), (ErrV, int)>((mul, 5)));
    assert(crate::parser::sp_term_rest(toks, 5, parsed) == Ok::<(ExprV, int), (ErrV, int)>(
        (parsed, 5),
    ));
    assert(crate::parser::sp_term_rest(toks, 1, lit1) == Ok::<(ExprV, int), (ErrV, int)>(
        (parsed, 5),
    ));
    assert(crate::parser::sp_term(toks, 0) == Ok::<(ExprV, int), (ErrV, int)>((parsed, 5)));
    assert(crate::parser::sp_comparison(toks, 0) == Ok::<(ExprV, int), (ErrV, int)>((parsed, 5)));
    assert(crate::parser::sp_equality(toks, 0) == Ok::<(ExprV, int), (ErrV, int)>((parsed, 5)));
    assert(crate::parser::sp_assignment(toks, 0) == Ok::<(ExprV, int), (ErrV, int)>((parsed, 5)));
    assert(sp_expression(toks, 0) == Ok::<(ExprV, int), (ErrV, int)>((parsed, 5)));
    assert(sp_eval(env, lit1) == (env, Ok::<ValueV, ErrV>(ValueV::Num(n1))));
    assert(sp_eval(env, lit2) == (env, Ok::<ValueV, ErrV>(ValueV::Num(n2))));
    assert(sp_eval(env, lit3) == (env, Ok::<ValueV, ErrV>(ValueV::Num(n3))));
    assert(sp_eval(env, mul) == (env, Ok::<ValueV, ErrV>(ValueV::Num(num_mul(n2, n3)))));
    assert(sp_eval(env, parsed) == (
        env,
        Ok::<ValueV, ErrV>(ValueV::Num(num_add(n1, num_mul(n2, n3)))),
    ));
}

/// The type-error boundary of `+`: a number and a text do not add — the
/// failure is at the operator's line and names the non-text operand — while
/// two texts concatenate exactly. The store is unchanged either way.
pub proof fn lemma_plus_type_boundary(
    env: EnvV,
    op: TokenV,
    a: u64,
    s: Seq<char>,
    s1: Seq<char>,
    s2: Seq<char>,
)
    requires
        op.token_type == TokenType::Plus,
    ensures
        sp_eval(
            env,
            ExprV::Binary(
                Box::new(ExprV::Literal(ValueV::Num(a))),
                op,
                Box::new(ExprV::Literal(ValueV::Str(s))),
            ),
        ) == (
            env,
            Err::<ValueV, ErrV>(ErrV { line: op.line, message: not_string_msg(ValueV::Num(a)) }),
        ),
        sp_eval(
            env,
            ExprV::Binary(
                Box::new(ExprV::Literal(ValueV::Str(s1))),
                op,
                Box::new(ExprV::Literal(ValueV::Str(s2))),
            ),
        ) == (env, Ok::<ValueV, ErrV>(ValueV::Str(s1 + s2))),
{
    reveal_with_fuel(sp_eval, 3);
}

/// Referencing a name the store does not bind fails with an
/// undefined-variable error at the name token's line, and leaves the store
/// unchanged.
pub proof fn lemma_undefined_variable(env: EnvV, t: TokenV)
    requires
        !env.contains_key(t.lexeme),
    ensures
        sp_eval(env, ExprV::Variable(t)) == (
            env,
            Err::<ValueV, ErrV>(ErrV { line: t.line, message: undefined_var_msg(t.lexeme) }),
        ),
{
}

/// Equality semantics: `==` on two literals yields exactly `val_eq`;
/// values of different variants are never equal (so `nil == false` is
/// false), and `nil` equals `nil`.
pub proof fn lemma_equality_semantics(env: EnvV, op: TokenV, v1: ValueV, v2: ValueV)
    requires
        op.token_type == TokenType::EqualEqual,
    ensures
        sp_eval(
            env,
            ExprV::Binary(Box::new(ExprV::Literal(v1)), op, Box::new(ExprV::Literal(v2))),
        ) == (env, Ok::<ValueV, ErrV>(ValueV::Bool(val_eq(v1, v2)))),
        ((v1 is Num) != (v2 is Num) || (v1 is Str) != (v2 is Str) || (v1 is Bool) != (v2 is Bool)
            || (v1 is Nil) != (v2 is Nil)) ==> !val_eq(v1, v2),
        !val_eq(ValueV::Nil, ValueV::Bool(false)),
        val_eq(ValueV::Nil, ValueV::Nil),
{
    reveal_with_fuel(sp_eval, 3);
}

/// Scan-error resilience: from an opening quote that is never closed, the
/// scanner reports exactly one unterminated-string error at the line where
/// the string began, produces no further token but the end-of-input token,
/// and — because `spec_scan_from` composes step by step — every token
/// scanned before that quote stands untouched.
pub proof fn lemma_unterminated_string(src: Seq<char>, i: int, line: nat)
    requires
        0 <= i < src.len(),
        src[i] == '"',
        forall|k: int| i < k < src.len() ==> src[k] != '"',
    ensures
        spec_scan_from(src, i, line).tokens == seq![eof_token(line)],
        spec_scan_from(src, i, line).errors == seq![
            ErrV { line, message: "Unterminated string"@ },
        ],
{
    reveal_with_fuel(spec_scan_from, 3);
    lemma_find_quote_none(src, i + 1);
    assert(spec_scan_from(src, i, line).tokens =~= seq![eof_token(line)]);
    assert(spec_scan_from(src, i, line).errors =~= seq![
        ErrV { line, message: "Unterminated string"@ },
    ]);
}

} // verus!
