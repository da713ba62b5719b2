//! The scanner: one left-to-right pass over the source text that produces a
//! token sequence and a list of line-tagged scan errors. A scan error never
//! aborts the scan; the scanner records it and goes on, and always ends the
//! token sequence with an end-of-input token.
//!
//! The ghost model is `spec_scan`: a recursive function over the source's
//! character sequence that takes one token-sized step at a time
//! (`spec_step`). `Scanner::scan_tokens` is proved to produce exactly the
//! tokens and errors of `spec_scan`.

use crate::numbers::{all_digits, is_digit, is_number_text, num_from_text, num_of_text};
use crate::ErrV;
use crate::JLoxError;
use vstd::prelude::*;

verus! {

/// The lexical categories of the language.
#[derive(Debug, Clone, Copy, PartialEq, Eq, Structural)]
pub enum TokenType {
    LeftParen,
    RightParen,
    LeftBrace,
    RightBrace,
    Comma,
    Dot,
    Minus,
    Plus,
    Semicolon,
    Slash,
    Star,
    Bang,
    BangEqual,
    Equal,
    EqualEqual,
    Less,
    LessEqual,
    Greater,
    GreaterEqual,
    Identifier,
    String,
    /// A numeric literal, carrying its binary64 value as bits.
    Number(u64),
    And,
    Class,
    Else,
    False,
    Fun,
    For,
    If,
    Nil,
    Or,
    Print,
    Return,
    Super,
    This,
    True,
    Var,
    While,
    EOF,
}

/// A classified, line-tagged lexical unit.
#[derive(Debug)]
pub struct Token {
    /// The lexical category, with the decoded value for a numeric literal.
    pub token_type: TokenType,
    /// The exact source substring the token was read from.
    pub lexeme: String,
    /// The decoded payload: for a string literal the text between the
    /// quotes, for a numeric literal or an identifier its text, else empty.
    pub literal: String,
    /// The 1-based line the token starts on.
    pub line: usize,
}

/// Ghost form of a token: the same fields over character sequences.
pub struct TokenV {
    pub token_type: TokenType,
    pub lexeme: Seq<char>,
    pub literal: Seq<char>,
    pub line: nat,
}

impl View for Token {
    type V = TokenV;

    open spec fn view(&self) -> TokenV {
        TokenV {
            token_type: self.token_type,
            lexeme: self.lexeme@,
            literal: self.literal@,
            line: self.line as nat,
        }
    }
}

impl DeepView for Token {
    type V = TokenV;

    open spec fn deep_view(&self) -> TokenV {
        self.view()
    }
}

impl Token {
    /// An owned copy of this token.
    pub fn dup(&self) -> (t: Token)
        ensures
            t == *self,
    {
        Token {
            token_type: self.token_type,
            lexeme: self.lexeme.clone(),
            literal: self.literal.clone(),
            line: self.line,
        }
    }
}

/// A letter or underscore: what an identifier may start with.
pub open spec fn is_alpha(c: char) -> bool {
    ('a' <= c && c <= 'z') || ('A' <= c && c <= 'Z') || c == '_'
}

/// What an identifier may continue with.
pub open spec fn is_alnum(c: char) -> bool {
    is_alpha(c) || is_digit(c)
}

/// The first index at or after `i` whose character is not a digit.
pub open spec fn digits_end(src: Seq<char>, i: int) -> int
    decreases src.len() - i,
{
    if 0 <= i < src.len() && is_digit(src[i]) {
        digits_end(src, i + 1)
    } else {
        i
    }
}

/// The first index at or after `i` whose character cannot continue an
/// identifier.
pub open spec fn ident_end(src: Seq<char>, i: int) -> int
    decreases src.len() - i,
{
    if 0 <= i < src.len() && is_alnum(src[i]) {
        ident_end(src, i + 1)
    } else {
        i
    }
}

/// The first index at or after `i` holding a newline, or the end of the
/// source: where a line comment stops.
pub open spec fn comment_end(src: Seq<char>, i: int) -> int
    decreases src.len() - i,
{
    if 0 <= i < src.len() && src[i] != '\n' {
        comment_end(src, i + 1)
    } else {
        i
    }
}

/// The index of the first double quote at or after `i`, if any.
pub open spec fn find_quote(src: Seq<char>, i: int) -> Option<int>
    decreases src.len() - i,
{
    if 0 <= i < src.len() {
        if src[i] == '"' {
            Some(i)
        } else {
            find_quote(src, i + 1)
        }
    } else {
        None
    }
}

/// How many newlines `src` holds in the index range `[i, j)`.
pub open spec fn count_nl(src: Seq<char>, i: int, j: int) -> nat
    decreases j - i,
{
    if i < j && 0 <= i < src.len() {
        (if src[i] == '\n' {
            1nat
        } else {
            0nat
        }) + count_nl(src, i + 1, j)
    } else {
        0nat
    }
}

/// The fixed keyword table: the token kind of an identifier's text.
pub open spec fn keyword_type(s: Seq<char>) -> TokenType {
    if s == "and"@ {
        TokenType::And
    } else if s == "class"@ {
        TokenType::Class
    } else if s == "else"@ {
        TokenType::Else
    } else if s == "false"@ {
        TokenType::False
    } else if s == "for"@ {
        TokenType::For
    } else if s == "fun"@ {
        TokenType::Fun
    } else if s == "if"@ {
        TokenType::If
    } else if s == "nil"@ {
        TokenType::Nil
    } else if s == "or"@ {
        TokenType::Or
    } else if s == "print"@ {
        TokenType::Print
    } else if s == "return"@ {
        TokenType::Return
    } else if s == "super"@ {
        TokenType::Super
    } else if s == "this"@ {
        TokenType::This
    } else if s == "true"@ {
        TokenType::True
    } else if s == "var"@ {
        TokenType::Var
    } else if s == "while"@ {
        TokenType::While
    } else {
        TokenType::Identifier
    }
}

/// One scan step: where scanning resumes, the line counter after the step,
/// and the token or error the step produced, if any.
pub struct ScanStep {
    pub next: int,
    pub line: nat,
    pub token: Option<TokenV>,
    pub error: Option<ErrV>,
}

/// What a whole scan produces: the token sequence (ending with end-of-input)
/// and the scan errors, in source order.
pub struct ScanOut {
    pub tokens: Seq<TokenV>,
    pub errors: Seq<ErrV>,
}

/// A token whose lexeme is the source range `[i, j)`, with an empty payload.
pub open spec fn plain_token(src: Seq<char>, i: int, j: int, t: TokenType, line: nat) -> TokenV {
    TokenV { token_type: t, lexeme: src.subrange(i, j), literal: Seq::empty(), line }
}

/// A step that consumes `[i, j)` and emits one token.
pub open spec fn token_step(t: TokenV, j: int, line: nat) -> ScanStep {
    ScanStep { next: j, line, token: Some(t), error: None }
}

/// The end-of-input token.
pub open spec fn eof_token(line: nat) -> TokenV {
    TokenV { token_type: TokenType::EOF, lexeme: Seq::empty(), literal: Seq::empty(), line }
}

/// One token-sized step of the scanner at position `i` (which must be inside
/// the source), with `line` the current 1-based line.
pub open spec fn spec_step(src: Seq<char>, i: int, line: nat) -> ScanStep {
    let c = src[i];
    if c == '\n' {
        ScanStep { next: i + 1, line: line + 1, token: None, error: None }
    } else if c == ' ' || c == '\r' || c == '\t' {
        ScanStep { next: i + 1, line, token: None, error: None }
    } else if c == '(' {
        token_step(plain_token(src, i, i + 1, TokenType::LeftParen, line), i + 1, line)
    } else if c == ')' {
        token_step(plain_token(src, i, i + 1, TokenType::RightParen, line), i + 1, line)
    } else if c == '{' {
        token_step(plain_token(src, i, i + 1, TokenType::LeftBrace, line), i + 1, line)
    } else if c == '}' {
        token_step(plain_token(src, i, i + 1, TokenType::RightBrace, line), i + 1, line)
    } else if c == ',' {
        token_step(plain_token(src, i, i + 1, TokenType::Comma, line), i + 1, line)
    } else if c == '.' {
        token_step(plain_token(src, i, i + 1, TokenType::Dot, line), i + 1, line)
    } else if c == '-' {
        token_step(plain_token(src, i, i + 1, TokenType::Minus, line), i + 1, line)
    } else if c == '+' {
        token_step(plain_token(src, i, i + 1, TokenType::Plus, line), i + 1, line)
    } else if c == ';' {
        token_step(plain_token(src, i, i + 1, TokenType::Semicolon, line), i + 1, line)
    } else if c == '*' {
        token_step(plain_token(src, i, i + 1, TokenType::Star, line), i + 1, line)
    } else if c == '!' {
        if i + 1 < src.len() && src[i + 1] == '=' {
            token_step(plain_token(src, i, i + 2, TokenType::BangEqual, line), i + 2, line)
        } else {
            token_step(plain_token(src, i, i + 1, TokenType::Bang, line), i + 1, line)
        }
    } else if c == '=' {
        if i + 1 < src.len() && src[i + 1] == '=' {
            token_step(plain_token(src, i, i + 2, TokenType::EqualEqual, line), i + 2, line)
        } else {
            token_step(plain_token(src, i, i + 1, TokenType::Equal, line), i + 1, line)
        }
    } else if c == '<' {
        if i + 1 < src.len() && src[i + 1] == '=' {
            token_step(plain_token(src, i, i + 2, TokenType::LessEqual, line), i + 2, line)
        } else {
            token_step(plain_token(src, i, i + 1, TokenType::Less, line), i + 1, line)
        }
    } else if c == '>' {
        if i + 1 < src.len() && src[i + 1] == '=' {
            token_step(plain_token(src, i, i + 2, TokenType::GreaterEqual, line), i + 2, line)
        } else {
            token_step(plain_token(src, i, i + 1, TokenType::Greater, line), i + 1, line)
        }
    } else if c == '/' {
        if i + 1 < src.len() && src[i + 1] == '/' {
            // a line comment: consumed without a token; the newline itself
            // is left for the next step
            ScanStep { next: comment_end(src, i + 2), line, token: None, error: None }
        } else {
            token_step(plain_token(src, i, i + 1, TokenType::Slash, line), i + 1, line)
        }
    } else if c == '"' {
        match find_quote(src, i + 1) {
            Some(j) => ScanStep {
                next: j + 1,
                line: line + count_nl(src, i + 1, j),
                token: Some(
                    TokenV {
                        token_type: TokenType::String,
                        lexeme: src.subrange(i, j + 1),
                        literal: src.subrange(i + 1, j),
                        line,
                    },
                ),
                error: None,
            },
            None => ScanStep {
                next: src.len() as int,
                line,
                token: None,
                error: Some(ErrV { line, message: "Unterminated string"@ }),
            },
        }
    } else if is_digit(c) {
        let d = digits_end(src, i);
        if d < src.len() && src[d] == '.' && d + 1 < src.len() && is_digit(src[d + 1]) {
            let f = digits_end(src, d + 1);
            let text = src.subrange(i, f);
            token_step(
                TokenV {
                    token_type: TokenType::Number(num_of_text(text)),
                    lexeme: text,
                    literal: text,
                    line,
                },
                f,
                line,
            )
        } else if d < src.len() && src[d] == '.' {
            // a trailing dot does not form a number: both the digits and the
            // dot are rejected
            ScanStep {
                next: d + 1,
                line,
                token: None,
                error: Some(
                    ErrV { line, message: "Error at end: Expect property name after '.'"@ },
                ),
            }
        } else {
            let text = src.subrange(i, d);
            token_step(
                TokenV {
                    token_type: TokenType::Number(num_of_text(text)),
                    lexeme: text,
                    literal: text,
                    line,
                },
                d,
                line,
            )
        }
    } else if is_alpha(c) {
        let e = ident_end(src, i);
        let text = src.subrange(i, e);
        token_step(
            TokenV { token_type: keyword_type(text), lexeme: text, literal: text, line },
            e,
            line,
        )
    } else {
        ScanStep {
            next: i + 1,
            line,
            token: None,
            error: Some(
                ErrV { line, message: "Unexpected character "@ + src.subrange(i, i + 1) },
            ),
        }
    }
}

/// A sequence holding the given token, or empty.
pub open spec fn opt_token(t: Option<TokenV>) -> Seq<TokenV> {
    match t {
        Some(tok) => seq![tok],
        None => Seq::empty(),
    }
}

/// A sequence holding the given error, or empty.
pub open spec fn opt_error(e: Option<ErrV>) -> Seq<ErrV> {
    match e {
        Some(err) => seq![err],
        None => Seq::empty(),
    }
}

/// Everything the scan produces from position `i` on, with `line` the
/// current line: step by step until the end of the source, then the
/// end-of-input token. Every step advances, so the guard on `st.next` never
/// fails; it only makes termination evident.
pub open spec fn spec_scan_from(src: Seq<char>, i: int, line: nat) -> ScanOut
    decreases src.len() - i,
{
    if 0 <= i < src.len() {
        let st = spec_step(src, i, line);
        if i < st.next <= src.len() {
            let rest = spec_scan_from(src, st.next, st.line);
            ScanOut {
                tokens: opt_token(st.token) + rest.tokens,
                errors: opt_error(st.error) + rest.errors,
            }
        } else {
            ScanOut { tokens: Seq::empty(), errors: Seq::empty() }
        }
    } else {
        ScanOut { tokens: seq![eof_token(line)], errors: Seq::empty() }
    }
}

/// The tokens and scan errors of a whole source text.
pub open spec fn spec_scan(src: Seq<char>) -> ScanOut {
    spec_scan_from(src, 0, 1)
}

pub proof fn lemma_digits_end_bounds(src: Seq<char>, i: int)
    requires
        0 <= i <= src.len(),
    ensures
        i <= digits_end(src, i) <= src.len(),
    decreases src.len() - i,
{
    if i < src.len() && is_digit(src[i]) {
        lemma_digits_end_bounds(src, i + 1);
    }
}

pub proof fn lemma_ident_end_bounds(src: Seq<char>, i: int)
    requires
        0 <= i <= src.len(),
    ensures
        i <= ident_end(src, i) <= src.len(),
    decreases src.len() - i,
{
    if i < src.len() && is_alnum(src[i]) {
        lemma_ident_end_bounds(src, i + 1);
    }
}

pub proof fn lemma_comment_end_bounds(src: Seq<char>, i: int)
    requires
        0 <= i <= src.len(),
    ensures
        i <= comment_end(src, i) <= src.len(),
    decreases src.len() - i,
{
    if i < src.len() && src[i] != '\n' {
        lemma_comment_end_bounds(src, i + 1);
    }
}

pub proof fn lemma_find_quote_bounds(src: Seq<char>, i: int)
    requires
        0 <= i,
    ensures
        match find_quote(src, i) {
            Some(j) => i <= j < src.len() && src[j] == '"',
            None => true,
        },
    decreases src.len() - i,
{
    if i < src.len() && src[i] != '"' {
        lemma_find_quote_bounds(src, i + 1);
    }
}

pub proof fn lemma_count_nl_bound(src: Seq<char>, i: int, j: int)
    requires
        i <= j,
    ensures
        count_nl(src, i, j) <= j - i,
    decreases j - i,
{
    if i < j && 0 <= i < src.len() {
        lemma_count_nl_bound(src, i + 1, j);
    }
}

/// Counting newlines one character further.
pub proof fn lemma_count_nl_snoc(src: Seq<char>, i: int, j: int)
    requires
        0 <= i <= j,
        j < src.len(),
    ensures
        count_nl(src, i, j + 1) == count_nl(src, i, j) + (if src[j] == '\n' {
            1nat
        } else {
            0nat
        }),
    decreases j - i,
{
    if i < j {
        lemma_count_nl_snoc(src, i + 1, j);
        assert(count_nl(src, i, j + 1) == (if src[i] == '\n' {
            1nat
        } else {
            0nat
        }) + count_nl(src, i + 1, j + 1));
        assert(count_nl(src, i, j) == (if src[i] == '\n' {
            1nat
        } else {
            0nat
        }) + count_nl(src, i + 1, j));
    } else {
        assert(count_nl(src, i, j) == 0);
        assert(count_nl(src, j + 1, j + 1) == 0);
        assert(count_nl(src, i, j + 1) == (if src[j] == '\n' {
            1nat
        } else {
            0nat
        }) + count_nl(src, j + 1, j + 1));
    }
}

/// Every scan step advances and stays inside the source.
pub proof fn lemma_step_advances(src: Seq<char>, i: int, line: nat)
    requires
        0 <= i < src.len(),
    ensures
        i < spec_step(src, i, line).next <= src.len(),
{
    let c = src[i];
    if c == '/' && i + 1 < src.len() && src[i + 1] == '/' {
        lemma_comment_end_bounds(src, i + 2);
    } else if c == '"' {
        lemma_find_quote_bounds(src, i + 1);
    } else if is_digit(c) {
        lemma_digits_end_bounds(src, i + 1);
        assert(digits_end(src, i) == digits_end(src, i + 1));
        let d = digits_end(src, i);
        if d < src.len() && src[d] == '.' && d + 1 < src.len() && is_digit(src[d + 1]) {
            lemma_digits_end_bounds(src, d + 2);
            assert(digits_end(src, d + 1) == digits_end(src, d + 2));
        }
    } else if is_alpha(c) {
        lemma_ident_end_bounds(src, i + 1);
        assert(ident_end(src, i) == ident_end(src, i + 1));
    }
}

/// The scan's token sequence is never empty and always ends with the
/// end-of-input token: exactly what the parser asks of its input.
pub proof fn lemma_scan_ends_with_eof(src: Seq<char>, i: int, line: nat)
    requires
        0 <= i,
    ensures
        spec_scan_from(src, i, line).tokens.len() >= 1,
        spec_scan_from(src, i, line).tokens.last().token_type == TokenType::EOF,
    decreases src.len() - i,
{
    if i < src.len() {
        lemma_step_advances(src, i, line);
        let st = spec_step(src, i, line);
        lemma_scan_ends_with_eof(src, st.next, st.line);
    }
}

/// A decimal digit, decided executably.
fn digit_exec(c: char) -> (r: bool)
    ensures
        r == is_digit(c),
{
    '0' <= c && c <= '9'
}

/// A letter or underscore, decided executably.
fn alpha_exec(c: char) -> (r: bool)
    ensures
        r == is_alpha(c),
{
    ('a' <= c && c <= 'z') || ('A' <= c && c <= 'Z') || c == '_'
}

/// The end of a digit run, computed executably.
fn scan_digits(chars: &Vec<char>, from: usize) -> (j: usize)
    requires
        from <= chars@.len(),
    ensures
        j == digits_end(chars@, from as int),
        from <= j <= chars@.len(),
        forall|k: int| from <= k < j ==> is_digit(#[trigger] chars@[k]),
{
    let mut j = from;
    while j < chars.len() && digit_exec(chars[j])
        invariant
            from <= j <= chars@.len(),
            digits_end(chars@, from as int) == digits_end(chars@, j as int),
            forall|k: int| from <= k < j ==> is_digit(#[trigger] chars@[k]),
        decreases chars@.len() - j,
    {
        j += 1;
    }
    j
}

/// The end of an identifier run, computed executably.
fn scan_ident(chars: &Vec<char>, from: usize) -> (j: usize)
    requires
        from <= chars@.len(),
    ensures
        j == ident_end(chars@, from as int),
        from <= j <= chars@.len(),
{
    let mut j = from;
    while j < chars.len() && (alpha_exec(chars[j]) || digit_exec(chars[j]))
        invariant
            from <= j <= chars@.len(),
            ident_end(chars@, from as int) == ident_end(chars@, j as int),
        decreases chars@.len() - j,
    {
        j += 1;
    }
    j
}

/// The end of a line comment, computed executably.
fn scan_comment(chars: &Vec<char>, from: usize) -> (j: usize)
    requires
        from <= chars@.len(),
    ensures
        j == comment_end(chars@, from as int),
        from <= j <= chars@.len(),
{
    let mut j = from;
    while j < chars.len() && chars[j] != '\n'
        invariant
            from <= j <= chars@.len(),
            comment_end(chars@, from as int) == comment_end(chars@, j as int),
        decreases chars@.len() - j,
    {
        j += 1;
    }
    j
}

/// Scans forward for the closing quote of a string literal, counting the
/// newlines passed on the way. Returns the index of the closing quote, or
/// the source length if there is none, together with the newline count.
fn scan_string_end(chars: &Vec<char>, from: usize) -> (r: (usize, usize))
    requires
        from <= chars@.len(),
    ensures
        ({
            let (j, nl) = r;
            &&& from <= j <= chars@.len()
            &&& nl == count_nl(chars@, from as int, j as int)
            &&& nl <= j - from
            &&& match find_quote(chars@, from as int) {
                Some(q) => j == q && q < chars@.len(),
                None => j == chars@.len(),
            }
        }),
{
    let mut j = from;
    let mut nl: usize = 0;
    while j < chars.len() && chars[j] != '"'
        invariant
            from <= j <= chars@.len(),
            nl == count_nl(chars@, from as int, j as int),
            nl <= j - from,
            find_quote(chars@, from as int) == find_quote(chars@, j as int),
        decreases chars@.len() - j,
    {
        proof {
            lemma_count_nl_snoc(chars@, from as int, j as int);
        }
        if chars[j] == '\n' {
            nl += 1;
        }
        j += 1;
    }
    proof {
        lemma_find_quote_bounds(chars@, from as int);
    }
    (j, nl)
}

/// The keyword table, decided executably on an identifier's text.
fn keyword_or_ident(text: &String) -> (k: TokenType)
    ensures
        k == keyword_type(text@),
{
    if *text == String::from_str("and") {
        TokenType::And
    } else if *text == String::from_str("class") {
        TokenType::Class
    } else if *text == String::from_str("else") {
        TokenType::Else
    } else if *text == String::from_str("false") {
        TokenType::False
    } else if *text == String::from_str("for") {
        TokenType::For
    } else if *text == String::from_str("fun") {
        TokenType::Fun
    } else if *text == String::from_str("if") {
        TokenType::If
    } else if *text == String::from_str("nil") {
        TokenType::Nil
    } else if *text == String::from_str("or") {
        TokenType::Or
    } else if *text == String::from_str("print") {
        TokenType::Print
    } else if *text == String::from_str("return") {
        TokenType::Return
    } else if *text == String::from_str("super") {
        TokenType::Super
    } else if *text == String::from_str("this") {
        TokenType::This
    } else if *text == String::from_str("true") {
        TokenType::True
    } else if *text == String::from_str("var") {
        TokenType::Var
    } else if *text == String::from_str("while") {
        TokenType::While
    } else {
        TokenType::Identifier
    }
}

/// The scanner's state: the source, its characters, and the tokens and
/// errors produced so far.
pub struct Scanner {
    pub source: String,
    pub chars: Vec<char>,
    pub tokens: Vec<Token>,
    pub errors: Vec<JLoxError>,
    pub line: usize,
    pub current: usize,
}

impl Scanner {
    /// The source text this scanner reads.
    pub closed spec fn src(&self) -> Seq<char> {
        self.source@
    }

    /// The cached character vector matches the source, and the source is
    /// small enough that positions and line numbers fit in `usize`.
    pub closed spec fn wf(&self) -> bool {
        self.chars@ == self.source@ && self.source@.len() < usize::MAX
    }

    /// A scanner that has not scanned yet.
    pub closed spec fn ready(&self) -> bool {
        &&& self.wf()
        &&& self.tokens@ == Seq::<Token>::empty()
        &&& self.errors@ == Seq::<JLoxError>::empty()
        &&& self.line == 1
        &&& self.current == 0
    }

    pub fn new(source: String) -> (s: Scanner)
        requires
            source@.len() < usize::MAX,
        ensures
            s.ready(),
            s.src() == source@,
    {
        let n = source.as_str().unicode_len();
        let mut chars: Vec<char> = Vec::new();
        let mut i: usize = 0;
        while i < n
            invariant
                i <= n,
                n == source@.len() < usize::MAX,
                chars@ == source@.subrange(0, i as int),
            decreases n - i,
        {
            let c = source.as_str().get_char(i);
            chars.push(c);
            i += 1;
            proof {
                assert(chars@ =~= source@.subrange(0, i as int));
            }
        }
        proof {
            assert(chars@ =~= source@);
        }
        Scanner { source, chars, tokens: Vec::new(), errors: Vec::new(), line: 1, current: 0 }
    }

    /// One full scan: afterwards `tokens` and `errors` hold exactly what the
    /// model `spec_scan` assigns to the source.
    #[verifier::rlimit(100)]
    pub fn scan_tokens(&mut self)
        requires
            old(self).ready(),
        ensures
            final(self).wf(),
            final(self).src() == old(self).src(),
            final(self).tokens.deep_view() == spec_scan(old(self).src()).tokens,
            final(self).errors.deep_view() == spec_scan(old(self).src()).errors,
            final(self).tokens.deep_view().len() >= 1,
            final(self).tokens.deep_view().last().token_type == TokenType::EOF,
    {
        let ghost src = self.source@;
        let len = self.chars.len();
        proof {
            assert(self.tokens.deep_view() =~= Seq::<TokenV>::empty());
            assert(self.errors.deep_view() =~= Seq::<ErrV>::empty());
        }
        while self.current < len
            invariant
                self.wf(),
                self.source@ == src,
                len == src.len(),
                self.current <= len,
                1 <= self.line,
                self.line as int <= 1 + self.current as int,
                spec_scan(src).tokens == self.tokens.deep_view() + spec_scan_from(
                    src,
                    self.current as int,
                    self.line as nat,
                ).tokens,
                spec_scan(src).errors == self.errors.deep_view() + spec_scan_from(
                    src,
                    self.current as int,
                    self.line as nat,
                ).errors,
            decreases len - self.current,
        {
            let ghost i = self.current as int;
            let ghost line0 = self.line as nat;
            let ghost st = spec_step(src, i, line0);
            let ghost toks0 = self.tokens.deep_view();
            let ghost errs0 = self.errors.deep_view();
            proof {
                lemma_step_advances(src, i, line0);
            }
            let cur = self.current;
            let c = self.chars[cur];
            let mut tok: Option<Token> = None;
            let mut err: Option<JLoxError> = None;
            let mut next: usize = cur + 1;
            let mut nline: usize = self.line;
            if c == '\n' {
                nline = self.line + 1;
            } else if c == ' ' || c == '\r' || c == '\t' {
                // skipped
            } else if c == '"' {
                let (j, nl) = scan_string_end(&self.chars, cur + 1);
                if j < len {
                    let lex = String::from_str(self.source.as_str().substring_char(cur, j + 1));
                    let lit = String::from_str(self.source.as_str().substring_char(cur + 1, j));
                    tok = Some(
                        Token {
                            token_type: TokenType::String,
                            lexeme: lex,
                            literal: lit,
                            line: self.line,
                        },
                    );
                    next = j + 1;
                    nline = self.line + nl;
                } else {
                    err = Some(JLoxError(self.line, String::from_str("Unterminated string")));
                    next = len;
                }
            } else if digit_exec(c) {
                let d = scan_digits(&self.chars, cur);
                if d < len && self.chars[d] == '.' && d + 1 < len && digit_exec(self.chars[d + 1]) {
                    let f = scan_digits(&self.chars, d + 1);
                    let text = self.source.as_str().substring_char(cur, f);
                    proof {
                        lemma_digits_end_bounds(src, i + 1);
                        assert(digits_end(src, i) == digits_end(src, i + 1));
                        lemma_digits_end_bounds(src, d + 2);
                        assert(digits_end(src, d + 1) == digits_end(src, d + 2));
                        let s = src.subrange(i, f as int);
                        let k = d - i;
                        assert(s[k] == '.');
                        assert(all_digits(s.subrange(0, k))) by {
                            assert(s.subrange(0, k) =~= src.subrange(i, d as int));
                        }
                        assert(all_digits(s.subrange(k + 1, s.len() as int))) by {
                            assert(s.subrange(k + 1, s.len() as int) =~= src.subrange(
                                d + 1,
                                f as int,
                            ));
                        }
                        assert(1 <= k <= s.len() - 2);
                        assert(is_number_text(text@));
                    }
                    let bits = num_from_text(text);
                    let lex = String::from_str(text);
                    let lit = String::from_str(text);
                    tok = Some(
                        Token {
                            token_type: TokenType::Number(bits),
                            lexeme: lex,
                            literal: lit,
                            line: self.line,
                        },
                    );
                    next = f;
                } else if d < len && self.chars[d] == '.' {
                    err = Some(
                        JLoxError(
                            self.line,
                            String::from_str("Error at end: Expect property name after '.'"),
                        ),
                    );
                    next = d + 1;
                } else {
                    let text = self.source.as_str().substring_char(cur, d);
                    proof {
                        assert(all_digits(text@)) by {
                            assert(text@ =~= src.subrange(i, d as int));
                        }
                        assert(text@.len() > 0);
                        assert(is_number_text(text@));
                    }
                    let bits = num_from_text(text);
                    let lex = String::from_str(text);
                    let lit = String::from_str(text);
                    tok = Some(
                        Token {
                            token_type: TokenType::Number(bits),
                            lexeme: lex,
                            literal: lit,
                            line: self.line,
                        },
                    );
                    next = d;
                }
            } else if alpha_exec(c) {
                let e = scan_ident(&self.chars, cur);
                let text = self.source.as_str().substring_char(cur, e);
                let lex = String::from_str(text);
                let lit = String::from_str(text);
                let kind = keyword_or_ident(&lex);
                tok = Some(Token { token_type: kind, lexeme: lex, literal: lit, line: self.line });
                next = e;
            } else if c == '/' && cur + 1 < len && self.chars[cur + 1] == '/' {
                next = scan_comment(&self.chars, cur + 2);
            } else if c == '!' || c == '=' || c == '<' || c == '>' {
                let two = cur + 1 < len && self.chars[cur + 1] == '=';
                let kind = if c == '!' {
                    if two {
                        TokenType::BangEqual
                    } else {
                        TokenType::Bang
                    }
                } else if c == '=' {
                    if two {
                        TokenType::EqualEqual
                    } else {
                        TokenType::Equal
                    }
                } else if c == '<' {
                    if two {
                        TokenType::LessEqual
                    } else {
                        TokenType::Less
                    }
                } else {
                    if two {
                        TokenType::GreaterEqual
                    } else {
                        TokenType::Greater
                    }
                };
                let end = if two {
                    cur + 2
                } else {
                    cur + 1
                };
                let lex = String::from_str(self.source.as_str().substring_char(cur, end));
                tok = Some(
                    Token { token_type: kind, lexeme: lex, literal: String::new(), line: self.line },
                );
                next = end;
            } else if c == '(' || c == ')' || c == '{' || c == '}' || c == ',' || c == '.'
                || c == '-' || c == '+' || c == ';' || c == '*' || c == '/' {
                let kind = if c == '(' {
                    TokenType::LeftParen
                } else if c == ')' {
                    TokenType::RightParen
                } else if c == '{' {
                    TokenType::LeftBrace
                } else if c == '}' {
                    TokenType::RightBrace
                } else if c == ',' {
                    TokenType::Comma
                } else if c == '.' {
                    TokenType::Dot
                } else if c == '-' {
                    TokenType::Minus
                } else if c == '+' {
                    TokenType::Plus
                } else if c == ';' {
                    TokenType::Semicolon
                } else if c == '*' {
                    TokenType::Star
                } else {
                    TokenType::Slash
                };
                let lex = String::from_str(self.source.as_str().substring_char(cur, cur + 1));
                tok = Some(
                    Token { token_type: kind, lexeme: lex, literal: String::new(), line: self.line },
                );
            } else {
                let msg = String::from_str("Unexpected character ").concat(
                    self.source.as_str().substring_char(cur, cur + 1),
                );
                err = Some(JLoxError(self.line, msg));
            }
            proof {
                assert(st.next == next as int);
                assert(st.line == nline as nat);
                assert(st.token == tok.deep_view());
                assert(st.error == err.deep_view());
            }
            if let Some(t) = tok {
                self.tokens.push(t);
            }
            if let Some(e) = err {
                self.errors.push(e);
            }
            self.current = next;
            self.line = nline;
            proof {
                assert(self.tokens.deep_view() =~= toks0 + opt_token(st.token));
                assert(self.errors.deep_view() =~= errs0 + opt_error(st.error));
                assert(spec_scan_from(src, i, line0).tokens == opt_token(st.token)
                    + spec_scan_from(src, st.next, st.line).tokens);
                assert(spec_scan_from(src, i, line0).errors == opt_error(st.error)
                    + spec_scan_from(src, st.next, st.line).errors);
                assert(spec_scan(src).tokens =~= self.tokens.deep_view() + spec_scan_from(
                    src,
                    self.current as int,
                    self.line as nat,
                ).tokens);
                assert(spec_scan(src).errors =~= self.errors.deep_view() + spec_scan_from(
                    src,
                    self.current as int,
                    self.line as nat,
                ).errors);
            }
        }
        let eof = Token {
            token_type: TokenType::EOF,
            lexeme: String::new(),
            literal: String::new(),
            line: self.line,
        };
        self.tokens.push(eof);
        proof {
            assert(spec_scan_from(src, self.current as int, self.line as nat).tokens =~= seq![
                eof_token(self.line as nat),
            ]);
            assert(spec_scan_from(src, self.current as int, self.line as nat).errors
                =~= Seq::<ErrV>::empty());
            assert(self.tokens.deep_view() =~= spec_scan(src).tokens);
            assert(self.errors.deep_view() =~= spec_scan(src).errors);
            lemma_scan_ends_with_eof(src, 0, 1);
        }
    }
}

} // verus!
