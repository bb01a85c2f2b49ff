//! The lexical grammar of Lox, as spec functions over the source code's
//! characters. Byte offsets are those of the characters' UTF-8 encoding.
use vstd::prelude::*;

use crate::diagnostics::Diag;
use crate::lex::scan::char_at;
use crate::spans::Span;
use crate::symbols::{after_intern, distinct, lemma_symbol_of, symbol_of, Symbol};
use crate::text::byte_len;
use crate::text::{byte_offset, lemma_byte_len_subrange};
use crate::tokens::{Literal, Token, TokenKind, TokenType};

verus! {

/// A class of characters that the lexer consumes in runs.
#[derive(Clone, Copy, Debug, PartialEq, Eq, Structural)]
pub enum CharClass {
    /// Tabs, line feeds, carriage returns and spaces.
    Whitespace,
    /// Every character but a line feed.
    Inline,
    /// ASCII letters and underscores, which begin keywords and identifiers.
    WordStart,
    /// ASCII letters, digits and underscores, which continue keywords and
    /// identifiers.
    WordContinue,
    /// ASCII digits.
    Digit,
    /// Every character but a double quote.
    InString,
}

/// Whether a character is an ASCII digit.
pub open spec fn is_digit(c: char) -> bool {
    '0' <= c <= '9'
}

/// Whether a character is an ASCII letter or an underscore.
pub open spec fn is_word_start(c: char) -> bool {
    ('a' <= c <= 'z') || ('A' <= c <= 'Z') || c == '_'
}

/// Whether a character belongs to a class.
pub open spec fn in_class(class: CharClass, c: char) -> bool {
    match class {
        CharClass::Whitespace => c == '\t' || c == '\n' || c == '\r' || c == ' ',
        CharClass::Inline => c != '\n',
        CharClass::WordStart => is_word_start(c),
        CharClass::WordContinue => is_word_start(c) || is_digit(c),
        CharClass::Digit => is_digit(c),
        CharClass::InString => c != '"',
    }
}

/// Whether the character at index `i` exists and is a digit.
pub open spec fn is_digit_at(s: Seq<char>, i: int) -> bool {
    0 <= i < s.len() && is_digit(s[i])
}

/// The index that ends the run of characters of a class starting at `i`: the
/// first index at or after `i` whose character is not in the class, or the
/// end of source code.
pub open spec fn run_end(s: Seq<char>, i: int, class: CharClass) -> int
    decreases s.len() - i,
{
    if 0 <= i < s.len() && in_class(class, s[i]) {
        run_end(s, i + 1, class)
    } else {
        i
    }
}

/// What a token is made of, with identifier names and string contents held
/// as text rather than as [`Symbol`]s.
pub enum TokenSpec {
    /// A token of a [`TokenType`] that carries no value: punctuation,
    /// keywords and the end of file.
    Plain(TokenType),
    /// The `nil` literal.
    Nil,
    /// A Boolean literal.
    Bool(bool),
    /// A number literal, spelled by the token's lexeme.
    Number,
    /// A string literal, with its contents.
    Str(Seq<char>),
    /// An identifier, with its name.
    Ident(Seq<char>),
}

/// A diagnostic at a span of byte offsets.
pub struct DiagSpec {
    /// The [`Diag`].
    pub diag: Diag,
    /// The span's start byte offset.
    pub start: nat,
    /// The span's end byte offset.
    pub end: nat,
}

/// What one lexeme is: whitespace, a comment or an unexpected character
/// (`None`), or a token.
pub struct Step {
    /// The token, or `None` for a lexeme that makes no token.
    pub token: Option<TokenSpec>,
    /// The index after the lexeme's last character.
    pub end: int,
    /// The diagnostics that the lexeme raises.
    pub diags: Seq<DiagSpec>,
}

/// The token of a keyword, or of an identifier with that name.
pub open spec fn word_token(w: Seq<char>) -> TokenSpec {
    if w == "and"@ {
        TokenSpec::Plain(TokenType::And)
    } else if w == "class"@ {
        TokenSpec::Plain(TokenType::Class)
    } else if w == "else"@ {
        TokenSpec::Plain(TokenType::Else)
    } else if w == "false"@ {
        TokenSpec::Bool(false)
    } else if w == "for"@ {
        TokenSpec::Plain(TokenType::For)
    } else if w == "fun"@ {
        TokenSpec::Plain(TokenType::Fun)
    } else if w == "if"@ {
        TokenSpec::Plain(TokenType::If)
    } else if w == "nil"@ {
        TokenSpec::Nil
    } else if w == "or"@ {
        TokenSpec::Plain(TokenType::Or)
    } else if w == "print"@ {
        TokenSpec::Plain(TokenType::Print)
    } else if w == "return"@ {
        TokenSpec::Plain(TokenType::Return)
    } else if w == "super"@ {
        TokenSpec::Plain(TokenType::Super)
    } else if w == "this"@ {
        TokenSpec::Plain(TokenType::This)
    } else if w == "true"@ {
        TokenSpec::Bool(true)
    } else if w == "var"@ {
        TokenSpec::Plain(TokenType::Var)
    } else if w == "while"@ {
        TokenSpec::Plain(TokenType::While)
    } else {
        TokenSpec::Ident(w)
    }
}

/// A step that makes a token of one or two characters without diagnostics.
pub open spec fn plain(token_type: TokenType, end: int) -> Step {
    Step { token: Some(TokenSpec::Plain(token_type)), end, diags: Seq::empty() }
}

/// A one- or two-character operator: the long form if an `=` follows.
pub open spec fn digraph(s: Seq<char>, i: int, short: TokenType, long: TokenType) -> Step {
    if char_at(s, i + 1) == Some('=') {
        plain(long, i + 2)
    } else {
        plain(short, i + 1)
    }
}

/// A number that starts with a digit at `i`: digits, then possibly a decimal
/// point and more digits. A decimal point with no digit after it is reported.
pub open spec fn number_step(s: Seq<char>, i: int) -> Step {
    let e1 = run_end(s, i + 1, CharClass::Digit);
    if char_at(s, e1) == Some('.') {
        let e2 = run_end(s, e1 + 1, CharClass::Digit);
        let diags = if !is_digit_at(s, e1 + 1) {
            seq![DiagSpec { diag: Diag::TrailingDecimal, start: byte_offset(s, e1) , end: byte_offset(s, e1) + 1 }]
        } else {
            Seq::empty()
        };
        Step { token: Some(TokenSpec::Number), end: e2, diags }
    } else {
        Step { token: Some(TokenSpec::Number), end: e1, diags: Seq::empty() }
    }
}

/// A string literal whose opening quote is at `i`. A string with no closing
/// quote runs to the end of source code and is reported.
pub open spec fn string_step(s: Seq<char>, i: int) -> Step {
    let e = run_end(s, i + 1, CharClass::InString);
    let token = Some(TokenSpec::Str(s.subrange(i + 1, e)));
    if e < s.len() {
        Step { token, end: e + 1, diags: Seq::empty() }
    } else {
        Step {
            token,
            end: e,
            diags: seq![DiagSpec { diag: Diag::UnterminatedString, start: byte_offset(s, i) + 1, end: byte_offset(s, e) }],
        }
    }
}

/// Whitespace from index `i` on, which makes no token.
pub open spec fn whitespace_step(s: Seq<char>, i: int) -> Step {
    Step { token: None, end: run_end(s, i + 1, CharClass::Whitespace), diags: Seq::empty() }
}

/// A keyword or identifier that starts with a letter at `i`.
pub open spec fn word_step(s: Seq<char>, i: int) -> Step {
    let e = run_end(s, i + 1, CharClass::WordContinue);
    Step { token: Some(word_token(s.subrange(i, e))), end: e, diags: Seq::empty() }
}

/// A decimal point at `i`: the start of a number if a digit follows, which is
/// reported, else a dot.
pub open spec fn dot_step(s: Seq<char>, i: int) -> Step {
    if is_digit_at(s, i + 1) {
        let e = run_end(s, i + 1, CharClass::Digit);
        Step {
            token: Some(TokenSpec::Number),
            end: e,
            diags: seq![DiagSpec { diag: Diag::LeadingDecimal, start: byte_offset(s, i), end: byte_offset(s, i) }],
        }
    } else {
        plain(TokenType::Dot, i + 1)
    }
}

/// A slash at `i`: a comment to the end of the line if another slash
/// follows, else a slash.
pub open spec fn slash_step(s: Seq<char>, i: int) -> Step {
    if char_at(s, i + 1) == Some('/') {
        Step { token: None, end: run_end(s, i + 2, CharClass::Inline), diags: Seq::empty() }
    } else {
        plain(TokenType::Slash, i + 1)
    }
}

/// A character at `i` that begins no token, which is reported.
pub open spec fn unexpected_step(s: Seq<char>, i: int) -> Step {
    Step {
        token: None,
        end: i + 1,
        diags: seq![DiagSpec { diag: Diag::UnexpectedChar(s[i]), start: byte_offset(s, i), end: byte_offset(s, i + 1) }],
    }
}

/// The lexeme that starts at index `i`.
pub open spec fn scan_step(s: Seq<char>, i: int) -> Step {
    if i >= s.len() {
        plain(TokenType::Eof, i)
    } else {
        let c = s[i];
        if in_class(CharClass::Whitespace, c) {
            whitespace_step(s, i)
        } else if is_word_start(c) {
            word_step(s, i)
        } else if is_digit(c) {
            number_step(s, i)
        } else if c == '"' {
            string_step(s, i)
        } else if c == '(' {
            plain(TokenType::OpenParen, i + 1)
        } else if c == ')' {
            plain(TokenType::CloseParen, i + 1)
        } else if c == '{' {
            plain(TokenType::OpenBrace, i + 1)
        } else if c == '}' {
            plain(TokenType::CloseBrace, i + 1)
        } else if c == ',' {
            plain(TokenType::Comma, i + 1)
        } else if c == '.' {
            dot_step(s, i)
        } else if c == '-' {
            plain(TokenType::Minus, i + 1)
        } else if c == '+' {
            plain(TokenType::Plus, i + 1)
        } else if c == ';' {
            plain(TokenType::Semi, i + 1)
        } else if c == '/' {
            slash_step(s, i)
        } else if c == '*' {
            plain(TokenType::Star, i + 1)
        } else if c == '!' {
            digraph(s, i, TokenType::Bang, TokenType::BangEquals)
        } else if c == '=' {
            digraph(s, i, TokenType::Equals, TokenType::EqualsEquals)
        } else if c == '>' {
            digraph(s, i, TokenType::Greater, TokenType::GreaterEquals)
        } else if c == '<' {
            digraph(s, i, TokenType::Less, TokenType::LessEquals)
        } else {
            unexpected_step(s, i)
        }
    }
}

/// A run never ends before it starts, nor past the end of source code.
pub proof fn lemma_run_end(s: Seq<char>, i: int, class: CharClass)
    requires
        0 <= i,
    ensures
        i <= run_end(s, i, class),
        i <= s.len() ==> run_end(s, i, class) <= s.len(),
        forall|k: int| i <= k < run_end(s, i, class) ==> in_class(class, #[trigger] s[k]),
        run_end(s, i, class) < s.len() ==> !in_class(class, s[run_end(s, i, class)]),
    decreases s.len() - i,
{
    if 0 <= i < s.len() && in_class(class, s[i]) {
        lemma_run_end(s, i + 1, class);
    }
}

/// A run is determined by where it stops: the first index whose character is
/// not in the class.
pub proof fn lemma_run_end_unique(s: Seq<char>, i: int, e: int, class: CharClass)
    requires
        0 <= i <= e <= s.len(),
        forall|k: int| i <= k < e ==> in_class(class, #[trigger] s[k]),
        e < s.len() ==> !in_class(class, s[e]),
    ensures
        run_end(s, i, class) == e,
    decreases e - i,
{
    if i < e {
        lemma_run_end_unique(s, i + 1, e, class);
    }
}

/// Every lexeme within source code consumes at least one character and ends
/// within source code; at the end of source code, the step is the end of
/// file token and consumes nothing.
pub proof fn lemma_scan_step_bounds(s: Seq<char>, i: int)
    requires
        0 <= i <= s.len(),
    ensures
        i < s.len() ==> i < scan_step(s, i).end <= s.len(),
        i == s.len() ==> scan_step(s, i) == plain(TokenType::Eof, i),
{
    if i < s.len() {
        lemma_run_end(s, i + 1, CharClass::Whitespace);
        lemma_run_end(s, i + 1, CharClass::WordContinue);
        lemma_run_end(s, i + 1, CharClass::Digit);
        lemma_run_end(s, i + 1, CharClass::InString);
        lemma_run_end(s, i + 2, CharClass::Inline);
        let e1 = run_end(s, i + 1, CharClass::Digit);
        if e1 < s.len() {
            lemma_run_end(s, e1 + 1, CharClass::Digit);
        }
    }
}

/// A token of source code, found from index `i` on past any whitespace,
/// comments and unexpected characters.
pub struct Lexed {
    /// The token.
    pub token: TokenSpec,
    /// The index of the token's first character.
    pub start: int,
    /// The index after the token's last character.
    pub end: int,
    /// The diagnostics raised on the way, in order.
    pub diags: Seq<DiagSpec>,
}

/// The next token from index `i`.
pub open spec fn next_token_spec(s: Seq<char>, i: int) -> Lexed
    decreases s.len() - i,
{
    if 0 <= i < s.len() {
        let step = scan_step(s, i);
        match step.token {
            Some(token) => Lexed { token, start: i, end: step.end, diags: step.diags },
            None => {
                proof {
                    lemma_scan_step_bounds(s, i);
                }
                let rest = next_token_spec(s, step.end);
                Lexed { diags: step.diags + rest.diags, ..rest }
            },
        }
    } else {
        Lexed { token: TokenSpec::Plain(TokenType::Eof), start: i, end: i, diags: Seq::empty() }
    }
}

/// Whether a token's name or contents can be interned into a table: it is
/// there already, or the table has room for one more [`Symbol`].
pub open spec fn can_intern(table: Seq<Seq<char>>, token: TokenSpec) -> bool {
    match token {
        TokenSpec::Ident(w) => table.contains(w) || table.len() < u32::MAX,
        TokenSpec::Str(w) => table.contains(w) || table.len() < u32::MAX,
        _ => true,
    }
}

/// The table after interning a token's name or contents.
pub open spec fn interned(table: Seq<Seq<char>>, token: TokenSpec) -> Seq<Seq<char>> {
    match token {
        TokenSpec::Ident(w) => after_intern(table, w),
        TokenSpec::Str(w) => after_intern(table, w),
        _ => table,
    }
}

/// Whether a [`Symbol`] stands for a string in a table.
pub open spec fn names(table: Seq<Seq<char>>, symbol: Symbol, w: Seq<char>) -> bool {
    symbol.0 < table.len() && table[symbol.0 as int] == w
}

/// Whether a [`TokenKind`] is the token described, with its [`Symbol`]s
/// taken from a table; `span` is the byte span of the token's lexeme.
pub open spec fn models(kind: TokenKind, token: TokenSpec, table: Seq<Seq<char>>, span: (nat, nat)) -> bool {
    match token {
        TokenSpec::Plain(token_type) => token_type != TokenType::Literal && token_type != TokenType::Ident
            && kind.spec_token_type() == token_type,
        TokenSpec::Nil => kind == TokenKind::Literal(Literal::Nil),
        TokenSpec::Bool(b) => kind == TokenKind::Literal(Literal::Bool(b)),
        TokenSpec::Number => kind matches TokenKind::Literal(Literal::Number(digits)) && digits@ == span,
        TokenSpec::Str(w) => kind matches TokenKind::Literal(Literal::String(symbol)) && names(table, symbol, w),
        TokenSpec::Ident(w) => kind matches TokenKind::Ident(symbol) && names(table, symbol, w),
    }
}

/// The [`TokenKind`] of a [`TokenType`] that carries no value.
pub open spec fn plain_kind(token_type: TokenType) -> TokenKind {
    match token_type {
        TokenType::Eof => TokenKind::Eof,
        TokenType::OpenParen => TokenKind::OpenParen,
        TokenType::CloseParen => TokenKind::CloseParen,
        TokenType::OpenBrace => TokenKind::OpenBrace,
        TokenType::CloseBrace => TokenKind::CloseBrace,
        TokenType::Comma => TokenKind::Comma,
        TokenType::Dot => TokenKind::Dot,
        TokenType::Minus => TokenKind::Minus,
        TokenType::Plus => TokenKind::Plus,
        TokenType::Semi => TokenKind::Semi,
        TokenType::Slash => TokenKind::Slash,
        TokenType::Star => TokenKind::Star,
        TokenType::Bang => TokenKind::Bang,
        TokenType::BangEquals => TokenKind::BangEquals,
        TokenType::Equals => TokenKind::Equals,
        TokenType::EqualsEquals => TokenKind::EqualsEquals,
        TokenType::Greater => TokenKind::Greater,
        TokenType::GreaterEquals => TokenKind::GreaterEquals,
        TokenType::Less => TokenKind::Less,
        TokenType::LessEquals => TokenKind::LessEquals,
        TokenType::And => TokenKind::And,
        TokenType::Class => TokenKind::Class,
        TokenType::Else => TokenKind::Else,
        TokenType::For => TokenKind::For,
        TokenType::Fun => TokenKind::Fun,
        TokenType::If => TokenKind::If,
        TokenType::Or => TokenKind::Or,
        TokenType::Print => TokenKind::Print,
        TokenType::Return => TokenKind::Return,
        TokenType::Super => TokenKind::Super,
        TokenType::This => TokenKind::This,
        TokenType::Var => TokenKind::Var,
        TokenType::While => TokenKind::While,
        TokenType::Literal => TokenKind::Literal(Literal::Nil),
        TokenType::Ident => TokenKind::Ident(Symbol(0)),
    }
}

/// The [`TokenKind`] of a described token, with its [`Symbol`]s taken from a
/// table; `span` is the [`Span`] of the token's lexeme.
pub open spec fn kind_of(token: TokenSpec, table: Seq<Seq<char>>, span: Span) -> TokenKind {
    match token {
        TokenSpec::Plain(token_type) => plain_kind(token_type),
        TokenSpec::Nil => TokenKind::Literal(Literal::Nil),
        TokenSpec::Bool(b) => TokenKind::Literal(Literal::Bool(b)),
        TokenSpec::Number => TokenKind::Literal(Literal::Number(span)),
        TokenSpec::Str(w) => TokenKind::Literal(Literal::String(symbol_of(table, w))),
        TokenSpec::Ident(w) => TokenKind::Ident(symbol_of(table, w)),
    }
}

/// The [`Token`] that a lexed token of source code is, with its [`Symbol`]s
/// taken from a table.
pub open spec fn token_of(s: Seq<char>, lexed: Lexed, table: Seq<Seq<char>>) -> Token {
    let span = Span::from_offsets(byte_offset(s, lexed.start), byte_offset(s, lexed.end));
    Token { kind: kind_of(lexed.token, table, span), span }
}

/// A [`TokenKind`] that models a token is that token's kind, when the table
/// has no duplicates.
pub proof fn lemma_models_kind(kind: TokenKind, token: TokenSpec, table: Seq<Seq<char>>, span: Span)
    requires
        models(kind, token, table, span@),
        distinct(table),
        table.len() <= u32::MAX,
    ensures
        kind == kind_of(token, table, span),
{
    Span::lemma_ext(span, span);
    match token {
        TokenSpec::Number => {
            let sp = kind->Literal_0->Number_0;
            Span::lemma_ext(sp, span);
        },
        TokenSpec::Str(w) => {
            let sym = kind->Literal_0->String_0;
            lemma_symbol_of(table, w, sym.0 as int);
        },
        TokenSpec::Ident(w) => {
            let sym = kind->Ident_0;
            lemma_symbol_of(table, w, sym.0 as int);
        },
        _ => {},
    }
}

/// The next token lies within source code, after index `p`. The end of file
/// token is empty and comes only at the end of source code; every other
/// token has at least one character.
pub proof fn lemma_next_token_bounds(s: Seq<char>, p: int)
    requires
        0 <= p <= s.len(),
    ensures
        p <= next_token_spec(s, p).start <= next_token_spec(s, p).end <= s.len(),
        (next_token_spec(s, p).token == TokenSpec::Plain(TokenType::Eof)) <==> next_token_spec(s, p).start == s.len(),
        next_token_spec(s, p).token == TokenSpec::Plain(TokenType::Eof) ==> next_token_spec(s, p).end == s.len(),
        next_token_spec(s, p).token != TokenSpec::Plain(TokenType::Eof) ==> next_token_spec(s, p).start < next_token_spec(s, p).end,
    decreases s.len() - p,
{
    lemma_scan_step_bounds(s, p);
    if p < s.len() {
        let step = scan_step(s, p);
        if step.token is None {
            lemma_next_token_bounds(s, step.end);
        } else {
            lemma_scan_step_token(s, p);
        }
    }
}

/// A lexeme that makes a token is never the end of file token before the end
/// of source code.
pub proof fn lemma_scan_step_token(s: Seq<char>, p: int)
    requires
        0 <= p < s.len(),
    ensures
        scan_step(s, p).token != Some(TokenSpec::Plain(TokenType::Eof)),
{
    let c = s[p];
    if is_word_start(c) {
        let w = s.subrange(p, run_end(s, p + 1, CharClass::WordContinue));
        assert(word_token(w) != TokenSpec::Plain(TokenType::Eof));
    }
}

/// Only the end of file token has the end of file [`TokenType`].
pub proof fn lemma_kind_of_eof(token: TokenSpec, table: Seq<Seq<char>>, span: Span)
    ensures
        (kind_of(token, table, span).spec_token_type() == TokenType::Eof) == (token == TokenSpec::Plain(TokenType::Eof)),
{
    match token {
        TokenSpec::Plain(t) => {},
        _ => {},
    }
}

/// Whether interning the names and strings of every token from index `p` on
/// fits in `u32` [`Symbol`]s, starting from a table.
pub open spec fn names_fit(table: Seq<Seq<char>>, s: Seq<char>, p: int) -> bool
    decreases s.len() - p,
{
    let lexed = next_token_spec(s, p);
    &&& can_intern(table, lexed.token)
    &&& (0 <= p < lexed.end <= s.len() ==> names_fit(interned(table, lexed.token), s, lexed.end))
}

/// The names and strings of source code fit in a table when the table's
/// size and the number of characters left stay under `u32::MAX`: each token
/// interns at most one string and takes at least one character.
pub proof fn lemma_names_fit_by_length(table: Seq<Seq<char>>, s: Seq<char>, p: int)
    requires
        0 <= p <= s.len(),
        table.len() + (s.len() - p) < u32::MAX,
    ensures
        names_fit(table, s, p),
    decreases s.len() - p,
{
    let lexed = next_token_spec(s, p);
    lemma_next_token_bounds(s, p);
    if p < lexed.end {
        lemma_names_fit_by_length(interned(table, lexed.token), s, lexed.end);
    }
}

/// At the end of source code, the next token is the end of file, again and
/// again: it is empty, raises no diagnostic, and leaves the lexer where it
/// is.
pub proof fn law_eof_is_sticky(s: Seq<char>)
    ensures
        next_token_spec(s, s.len() as int) == (Lexed {
            token: TokenSpec::Plain(TokenType::Eof),
            start: s.len() as int,
            end: s.len() as int,
            diags: Seq::empty(),
        }),
{
}

/// Whether the lexeme at index `i` is trivia, which makes no token:
/// whitespace, a line comment, or a character that begins no token.
pub open spec fn trivia(s: Seq<char>, i: int) -> bool {
    ||| in_class(CharClass::Whitespace, s[i])
    ||| s[i] == '/' && char_at(s, i + 1) == Some('/')
    ||| scan_step(s, i) == unexpected_step(s, i)
}

/// Whether the characters from index `i` up to index `j` are skipped by the
/// lexer: a sequence of trivia lexemes that ends exactly at `j`.
pub open spec fn skipped(s: Seq<char>, i: int, j: int) -> bool
    decreases j - i,
{
    if i < j {
        let step = scan_step(s, i);
        if 0 <= i < s.len() && trivia(s, i) && step.token is None && i < step.end <= j {
            skipped(s, step.end, j)
        } else {
            false
        }
    } else {
        i == j
    }
}

/// A lexeme that makes no token is trivia.
proof fn lemma_trivia(s: Seq<char>, i: int)
    requires
        0 <= i < s.len(),
        scan_step(s, i).token is None,
    ensures
        trivia(s, i),
{
}

/// The lexer skips only trivia on its way from index `p` to the next token.
proof fn lemma_skipped_to_token(s: Seq<char>, p: int)
    requires
        0 <= p <= s.len(),
    ensures
        skipped(s, p, next_token_spec(s, p).start),
    decreases s.len() - p,
{
    if p < s.len() {
        let step = scan_step(s, p);
        lemma_scan_step_bounds(s, p);
        if step.token is None {
            lemma_trivia(s, p);
            lemma_skipped_to_token(s, step.end);
            lemma_next_token_bounds(s, step.end);
        }
    }
}

/// Two successive tokens: the second one is lexed from where the first one
/// ends. Their byte spans are in order and do not overlap, and everything
/// between them is trivia. Each token other than the end of file is exactly
/// the lexeme that starts where its span starts.
pub proof fn law_successive_tokens(s: Seq<char>, p: int)
    requires
        0 <= p <= s.len(),
    ensures
        ({
            let first = next_token_spec(s, p);
            let second = next_token_spec(s, first.end);
            &&& skipped(s, p, first.start)
            &&& skipped(s, first.end, second.start)
            &&& p <= first.start <= first.end <= second.start <= second.end <= s.len()
            &&& byte_offset(s, first.start) <= byte_offset(s, first.end) <= byte_offset(s, second.start)
                <= byte_offset(s, second.end) <= byte_len(s)
            &&& first.token != TokenSpec::Plain(TokenType::Eof) ==> scan_step(s, first.start).token == Some(first.token)
                && scan_step(s, first.start).end == first.end
        }),
{
    let first = next_token_spec(s, p);
    lemma_next_token_bounds(s, p);
    lemma_next_token_bounds(s, first.end);
    let second = next_token_spec(s, first.end);
    lemma_skipped_to_token(s, p);
    lemma_skipped_to_token(s, first.end);
    lemma_token_lexeme(s, p);
    lemma_byte_len_subrange(s, first.start, first.end);
    lemma_byte_len_subrange(s, first.end, second.start);
    lemma_byte_len_subrange(s, second.start, second.end);
    lemma_byte_len_subrange(s, second.end, s.len() as int);
}

/// A token other than the end of file is the lexeme at its start.
proof fn lemma_token_lexeme(s: Seq<char>, p: int)
    requires
        0 <= p <= s.len(),
    ensures
        next_token_spec(s, p).token != TokenSpec::Plain(TokenType::Eof) ==> scan_step(s, next_token_spec(s, p).start).token
            == Some(next_token_spec(s, p).token) && scan_step(s, next_token_spec(s, p).start).end == next_token_spec(s, p).end,
    decreases s.len() - p,
{
    if p < s.len() {
        lemma_scan_step_bounds(s, p);
        let step = scan_step(s, p);
        if step.token is None {
            lemma_token_lexeme(s, step.end);
        }
    }
}

/// A word lexes as one identifier naming the whole word, with no diagnostic:
/// ASCII letters of either case and underscores begin an identifier, and
/// ASCII letters, digits and underscores continue it, whatever a keyword is
/// not.
pub proof fn law_word_is_identifier(s: Seq<char>)
    requires
        s.len() > 0,
        !('0' <= s[0] <= '9'),
        forall|i: int|
            0 <= i < s.len() ==> ('a' <= #[trigger] s[i] <= 'z') || ('A' <= s[i] <= 'Z') || ('0' <= s[i] <= '9') || s[i]
                == '_',
        s != "and"@,
        s != "class"@,
        s != "else"@,
        s != "false"@,
        s != "for"@,
        s != "fun"@,
        s != "if"@,
        s != "nil"@,
        s != "or"@,
        s != "print"@,
        s != "return"@,
        s != "super"@,
        s != "this"@,
        s != "true"@,
        s != "var"@,
        s != "while"@,
    ensures
        next_token_spec(s, 0) == (Lexed { token: TokenSpec::Ident(s), start: 0, end: s.len() as int, diags: Seq::empty() }),
{
    assert(in_class(CharClass::WordStart, s[0]));
    lemma_run_end_unique(s, 1, s.len() as int, CharClass::WordContinue);
    assert(s.subrange(0, s.len() as int) =~= s);
}

} // verus!
