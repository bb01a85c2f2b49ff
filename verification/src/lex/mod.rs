pub mod grammar;
pub mod laws;
pub mod scan;

use vstd::prelude::*;

use crate::diagnostics::Diag;
use crate::log::{Log, Report};
use crate::spans::{BytePos, Span};
use crate::symbols::SymbolTable;
use crate::text::{byte_len, byte_offset, char_width, lemma_byte_len_subrange, lemma_byte_offset_next, lemma_encode_single, split_at_char};
use crate::tokens::{Literal, Token, TokenKind, TokenType};

use self::grammar::{
    can_intern, digraph, lemma_models_kind, token_of, in_class, interned, is_digit, is_digit_at, is_word_start, lemma_run_end, lemma_run_end_unique,
    lemma_scan_step_bounds, law_successive_tokens, skipped, models, next_token_spec, number_step, plain, run_end, scan_step, string_step, word_token,
    CharClass, DiagSpec, TokenSpec,
};
use self::scan::{char_at, Scanner};

verus! {

/// What a [`Lexer`] has read and written: the source code's characters, the
/// index of the next character, the interned strings and the reports.
pub struct LexState {
    /// The source code's characters.
    pub source: Seq<char>,
    /// The index of the next character.
    pub pos: int,
    /// The interned strings of the [`SymbolTable`].
    pub symbols: Seq<Seq<char>>,
    /// The reports of the [`Log`].
    pub log: Seq<Report>,
}

/// The byte span of the characters from index `a` to index `b`.
pub open spec fn lexeme_span(s: Seq<char>, a: int, b: int) -> (nat, nat) {
    (byte_offset(s, a), byte_offset(s, b))
}

/// Whether a [`Report`] is a diagnostic at its span.
pub open spec fn reports(report: Report, d: DiagSpec) -> bool {
    report.diag == d.diag && report.span@ == (d.start, d.end)
}

/// Whether a log is an earlier log followed by reports of the diagnostics,
/// in order.
pub open spec fn logged(old: Seq<Report>, new: Seq<Report>, diags: Seq<DiagSpec>) -> bool {
    &&& new.len() == old.len() + diags.len()
    &&& new.subrange(0, old.len() as int) == old
    &&& forall|k: int| 0 <= k < diags.len() ==> reports(new[old.len() + k], #[trigger] diags[k])
}

/// The [`Report`] of a diagnostic at its span.
pub open spec fn report_of(d: DiagSpec) -> Report {
    Report { diag: d.diag, span: Span::from_offsets(d.start, d.end) }
}

/// The [`Report`]s of diagnostics, in order.
pub open spec fn reports_of(diags: Seq<DiagSpec>) -> Seq<Report> {
    diags.map_values(|d: DiagSpec| report_of(d))
}

/// A log extended by reports of diagnostics is the earlier log followed by
/// [`reports_of`] them.
pub proof fn lemma_logged_eq(old: Seq<Report>, new: Seq<Report>, diags: Seq<DiagSpec>)
    requires
        logged(old, new, diags),
    ensures
        new == old + reports_of(diags),
{
    assert forall|k: int| 0 <= k < new.len() implies new[k] == (old + reports_of(diags))[k] by {
        if k < old.len() {
            assert(new[k] == new.subrange(0, old.len() as int)[k]);
        } else {
            let j = k - old.len();
            assert(reports(new[old.len() + j], diags[j]));
            let sp = new[k].span;
            Span::lemma_ext(sp, sp);
            Span::lemma_from_offsets(diags[j].start, diags[j].end);
            Span::lemma_ext(sp, Span::from_offsets(diags[j].start, diags[j].end));
        }
    }
    assert(new =~= old + reports_of(diags));
}

/// Logging no diagnostics leaves a log as it was.
pub proof fn lemma_logged_none(log: Seq<Report>)
    ensures
        logged(log, log, Seq::empty()),
{
    assert(log.subrange(0, log.len() as int) =~= log);
}

/// Logging one report of a diagnostic.
pub proof fn lemma_logged_push(log: Seq<Report>, report: Report, d: DiagSpec)
    requires
        reports(report, d),
    ensures
        logged(log, log.push(report), seq![d]),
{
    assert(log.push(report).subrange(0, log.len() as int) =~= log);
    assert(log.push(report)[log.len() as int] == report);
}

/// Logging twice logs the diagnostics of both, in order.
pub proof fn lemma_logged_trans(a: Seq<Report>, b: Seq<Report>, c: Seq<Report>, d1: Seq<DiagSpec>, d2: Seq<DiagSpec>)
    requires
        logged(a, b, d1),
        logged(b, c, d2),
    ensures
        logged(a, c, d1 + d2),
{
    assert(c.subrange(0, a.len() as int) =~= b.subrange(0, a.len() as int));
    assert forall|k: int| 0 <= k < (d1 + d2).len() implies reports(c[a.len() + k], #[trigger] (d1 + d2)[k]) by {
        if k < d1.len() {
            assert(reports(b[a.len() + k], d1[k]));
            assert(c[a.len() + k] == b[a.len() + k]);
        } else {
            assert(reports(c[b.len() + (k - d1.len())], d2[k - d1.len()]));
        }
    }
}

/// A structure which reads a stream of [`Token`]s from source code.
pub struct Lexer<'src> {
    /// The [`Scanner`].
    scanner: Scanner<'src>,
    /// The [`SymbolTable`].
    symbols: SymbolTable,
    /// The [`Log`].
    log: Log,
    /// The next [`Token`]'s start [`BytePos`].
    pos: BytePos,
}

impl<'src> View for Lexer<'src> {
    type V = LexState;

    closed spec fn view(&self) -> LexState {
        LexState { source: self.scanner@.source, pos: self.scanner@.pos, symbols: self.symbols@, log: self.log@ }
    }
}

/// A decimal point is one byte long.
proof fn lemma_dot_width()
    ensures
        char_width('.') == 1,
{
    assert(('.' as u32) == 46u32);
}

/// A double quote is one byte long, and so is its encoding as a string.
proof fn lemma_quote_width()
    ensures
        char_width('"') == 1,
        byte_len(seq!['"']) == 1,
{
    assert(('"' as u32) == 34u32);
    lemma_encode_single('"');
}

/// Returns [`true`] if a [`char`] is whitespace.
fn is_char_whitespace(c: char) -> (b: bool)
    ensures
        b == in_class(CharClass::Whitespace, c),
{
    c == '\t' || c == '\n' || c == '\r' || c == ' '
}

/// Returns [`true`] if a [`char`] is not a line feed.
fn is_char_inline(c: char) -> (b: bool)
    ensures
        b == in_class(CharClass::Inline, c),
{
    c != '\n'
}

/// Returns [`true`] if a [`char`] is a keyword or identifier start.
fn is_char_word_start(c: char) -> (b: bool)
    ensures
        b == in_class(CharClass::WordStart, c),
{
    ('a' <= c && c <= 'z') || ('A' <= c && c <= 'Z') || c == '_'
}

/// Returns [`true`] if a [`char`] is a keyword or identifier continuation.
fn is_char_word_continue(c: char) -> (b: bool)
    ensures
        b == in_class(CharClass::WordContinue, c),
{
    is_char_word_start(c) || is_char_digit(c)
}

/// Returns [`true`] if a [`char`] is a digit.
fn is_char_digit(c: char) -> (b: bool)
    ensures
        b == in_class(CharClass::Digit, c),
{
    '0' <= c && c <= '9'
}

/// Returns [`true`] if a [`char`] is not a quote.
fn is_char_in_string(c: char) -> (b: bool)
    ensures
        b == in_class(CharClass::InString, c),
{
    c != '"'
}

impl<'src> Lexer<'src> {
    /// The lexer's parts agree: the scanner is well formed, the next token's
    /// start [`BytePos`] is the byte offset of the scanner's next character,
    /// and byte offsets of source code fit in `u32`.
    pub closed spec fn wf(&self) -> bool {
        &&& self.scanner.wf()
        &&& self.pos@ == byte_offset(self.scanner@.source, self.scanner@.pos)
        &&& byte_len(self.scanner@.source) <= u32::MAX
    }

    /// A well-formed lexer's next character is within source code, whose
    /// bytes fit in `u32`.
    pub proof fn lemma_wf(&self)
        requires
            self.wf(),
        ensures
            0 <= self@.pos <= self@.source.len(),
            byte_len(self@.source) <= u32::MAX,
    {
        self.scanner.lemma_wf();
    }

    /// Creates a new `Lexer` from source code, a [`SymbolTable`], and a
    /// [`Log`]. The source code's byte offsets must fit in `u32`.
    pub fn new(source: &'src str, symbols: SymbolTable, log: Log) -> (lexer: Self)
        requires
            byte_len(source@) <= u32::MAX,
        ensures
            lexer.wf(),
            lexer@ == (LexState { source: source@, pos: 0, symbols: symbols@, log: log@ }),
    {
        let scanner = Scanner::new(source);
        proof {
            assert(scanner@.source.take(0) =~= Seq::<char>::empty());
        }
        Lexer { scanner, symbols, log, pos: BytePos::new() }
    }

    /// Returns the [`SymbolTable`].
    pub fn symbols(&self) -> (symbols: &SymbolTable)
        ensures
            symbols@ == self@.symbols,
    {
        &self.symbols
    }

    /// Returns the [`Log`].
    pub fn log(&self) -> (log: &Log)
        ensures
            log@ == self@.log,
    {
        &self.log
    }

    /// Reports a [`Diag`] at a [`Span`] to the [`Log`].
    pub fn report(&mut self, diag: Diag, span: Span)
        requires
            old(self).wf(),
        ensures
            final(self).wf(),
            final(self)@ == (LexState { log: old(self)@.log.push(Report { diag, span }), ..old(self)@ }),
    {
        self.log.report(diag, span);
    }

    /// Consumes the `Lexer` and returns its [`SymbolTable`] and [`Log`].
    pub fn into_parts(self) -> (parts: (SymbolTable, Log))
        ensures
            parts.0@ == self@.symbols,
            parts.1@ == self@.log,
    {
        (self.symbols, self.log)
    }

    /// Returns the next [`Token`]: the token of [`next_token_spec`] from the
    /// next character on. Whitespace, comments and unexpected characters on
    /// the way are skipped, and the diagnostics they raise are logged. An
    /// identifier's name or a string's contents is interned. The token's
    /// span starts no earlier than the lexer's byte position and ends where
    /// the lexer stops, so the spans of successive tokens are in order and
    /// never overlap.
    pub fn next_token(&mut self) -> (token: Token)
        requires
            old(self).wf(),
            can_intern(old(self)@.symbols, next_token_spec(old(self)@.source, old(self)@.pos).token),
        ensures
            final(self).wf(),
            ({
                let lexed = next_token_spec(old(self)@.source, old(self)@.pos);
                &&& final(self)@.source == old(self)@.source
                &&& final(self)@.pos == lexed.end
                &&& final(self)@.symbols == interned(old(self)@.symbols, lexed.token)
                &&& models(token.kind, lexed.token, final(self)@.symbols, token.span@)
                &&& token.span@ == (
                    byte_offset(old(self)@.source, lexed.start),
                    byte_offset(old(self)@.source, lexed.end),
                )
                &&& logged(old(self)@.log, final(self)@.log, lexed.diags)
                &&& final(self)@.log == old(self)@.log + reports_of(lexed.diags)
                &&& token == token_of(old(self)@.source, lexed, final(self)@.symbols)
                &&& skipped(old(self)@.source, old(self)@.pos, lexed.start)
                &&& byte_offset(old(self)@.source, old(self)@.pos) <= token.span@.0 <= token.span@.1 <= byte_len(
                    old(self)@.source,
                )
            }),
    {
        let ghost s = self.scanner@.source;
        let ghost target = next_token_spec(s, self.scanner@.pos);
        let ghost mut acc: Seq<DiagSpec> = Seq::empty();
        proof {
            self.scanner.lemma_wf();
            let p0 = self.scanner@.pos;
            law_successive_tokens(s, p0);
            lemma_byte_len_subrange(s, p0, target.start);
            lemma_logged_none(self.log@);
            assert(target.diags =~= acc + target.diags);
        }
        loop
            invariant
                self.wf(),
                self@.source == s,
                s == old(self)@.source,
                target == next_token_spec(old(self)@.source, old(self)@.pos),
                self@.symbols == old(self)@.symbols,
                0 <= self@.pos <= s.len(),
                next_token_spec(s, self@.pos).token == target.token,
                next_token_spec(s, self@.pos).start == target.start,
                next_token_spec(s, self@.pos).end == target.end,
                target.diags == acc + next_token_spec(s, self@.pos).diags,
                logged(old(self)@.log, self@.log, acc),
                can_intern(old(self)@.symbols, target.token),
                skipped(s, old(self)@.pos, target.start),
                byte_offset(s, old(self)@.pos) <= byte_offset(s, target.start) <= byte_offset(s, target.end) <= byte_len(s),
            decreases s.len() - self@.pos,
        {
            let ghost p = self.scanner@.pos;
            let ghost log0 = self.log@;
            proof {
                lemma_scan_step_bounds(s, p);
            }
            self.scanner.begin_lexeme();
            let kind = self.next_token_kind();
            let ghost e = self.scanner@.pos;
            proof {
                self.scanner.lemma_wf();
                lemma_byte_len_subrange(s, p, e);
                lemma_byte_len_subrange(s, e, s.len() as int);
                lemma_logged_trans(old(self)@.log, log0, self.log@, acc, scan_step(s, p).diags);
            }
            let start = self.pos;
            let end = start.add(self.scanner.lexeme_length());
            self.pos = end;
            if let Some(kind) = kind {
                proof {
                    if p == s.len() {
                        assert(acc + scan_step(s, p).diags =~= acc);
                    } else {
                        assert(scan_step(s, p).token is Some);
                        assert(next_token_spec(s, p).token == scan_step(s, p).token->0);
                        assert(next_token_spec(s, p).diags == scan_step(s, p).diags);
                    }
                }
                let span = Span::new(start, end);
                proof {
                    lemma_logged_eq(old(self)@.log, self@.log, target.diags);
                    use_type_invariant(&self.symbols);
                    self.symbols.lemma_wf();
                    lemma_models_kind(kind, target.token, self@.symbols, span);
                    Span::lemma_from_offsets(span@.0, span@.1);
                    Span::lemma_ext(span, Span::from_offsets(span@.0, span@.1));
                }
                return Token::new(kind, span);
            }
            proof {
                let rest = next_token_spec(s, e);
                assert(target.diags =~= (acc + scan_step(s, p).diags) + rest.diags);
                acc = acc + scan_step(s, p).diags;
            }
        }
    }

    /// Consumes the run of characters of a class from the next character on.
    fn eat_class(&mut self, class: CharClass)
        requires
            old(self).scanner.wf(),
        ensures
            final(self).scanner.wf(),
            final(self).scanner@.source == old(self).scanner@.source,
            final(self).scanner@.start == old(self).scanner@.start,
            final(self).scanner@.pos == run_end(old(self).scanner@.source, old(self).scanner@.pos, class),
            final(self).symbols == old(self).symbols,
            final(self).log == old(self).log,
            final(self).pos == old(self).pos,
    {
        let ghost s = self.scanner@.source;
        let ghost p0 = self.scanner@.pos;
        proof {
            self.scanner.lemma_wf();
        }
        match class {
            CharClass::Whitespace => self.scanner.eat_while(is_char_whitespace),
            CharClass::Inline => self.scanner.eat_while(is_char_inline),
            CharClass::WordStart => self.scanner.eat_while(is_char_word_start),
            CharClass::WordContinue => self.scanner.eat_while(is_char_word_continue),
            CharClass::Digit => self.scanner.eat_while(is_char_digit),
            CharClass::InString => self.scanner.eat_while(is_char_in_string),
        }
        proof {
            lemma_run_end_unique(s, p0, self.scanner@.pos, class);
        }
    }

    /// The lexer is in the middle of a lexeme that starts at index `i`.
    spec fn lexing(&self, i: int) -> bool {
        &&& self.scanner.wf()
        &&& self.scanner@.start == i
        &&& 0 <= i < self.scanner@.pos
        &&& self.pos@ == byte_offset(self.scanner@.source, i)
        &&& byte_len(self.scanner@.source) <= u32::MAX
    }

    /// Returns [`true`] if the next [`char`] is a digit.
    fn is_digit_next(&self) -> (b: bool)
        requires
            self.scanner.wf(),
        ensures
            b == is_digit_at(self.scanner@.source, self.scanner@.pos),
    {
        match self.scanner.peek() {
            Some(c) => is_char_digit(c),
            None => false,
        }
    }

    /// Returns a new number [`TokenKind`] from the current lexeme.
    fn number_from_lexeme(&self) -> (kind: TokenKind)
        requires
            self.lexing(self.scanner@.start),
        ensures
            models(kind, TokenSpec::Number, self.symbols@, lexeme_span(self.scanner@.source, self.scanner@.start, self.scanner@.pos)),
    {
        let ghost s = self.scanner@.source;
        proof {
            self.scanner.lemma_wf();
            lemma_byte_len_subrange(s, self.scanner@.start, self.scanner@.pos);
            lemma_byte_len_subrange(s, self.scanner@.pos, s.len() as int);
        }
        let start = self.pos;
        let end = start.add(self.scanner.lexeme_length());
        TokenKind::Literal(Literal::Number(Span::new(start, end)))
    }

    /// Returns the next short or long [`TokenKind`] depending on whether an
    /// equals sign [`char`] is consumed.
    fn next_digraph(&mut self, short: TokenKind, long: TokenKind) -> (kind: TokenKind)
        requires
            old(self).scanner.wf(),
        ensures
            final(self).scanner.wf(),
            final(self).scanner@.source == old(self).scanner@.source,
            final(self).scanner@.start == old(self).scanner@.start,
            final(self).symbols == old(self).symbols,
            final(self).log == old(self).log,
            final(self).pos == old(self).pos,
            ({
                let is_long = char_at(old(self).scanner@.source, old(self).scanner@.pos) == Some('=');
                &&& final(self).scanner@.pos == if is_long { old(self).scanner@.pos + 1 } else { old(self).scanner@.pos }
                &&& kind == if is_long { long } else { short }
            }),
    {
        if self.scanner.eat('=') {
            long
        } else {
            short
        }
    }

    /// Returns the next keyword or identifier [`TokenKind`] after consuming its
    /// first letter [`char`].
    fn next_word(&mut self) -> (kind: TokenKind)
        requires
            old(self).scanner.wf(),
            old(self).scanner@.pos == old(self).scanner@.start + 1,
            can_intern(
                old(self).symbols@,
                word_token(old(self).scanner@.source.subrange(
                    old(self).scanner@.start,
                    run_end(old(self).scanner@.source, old(self).scanner@.pos, CharClass::WordContinue),
                )),
            ),
        ensures
            final(self).scanner.wf(),
            final(self).scanner@.source == old(self).scanner@.source,
            final(self).scanner@.start == old(self).scanner@.start,
            final(self).log == old(self).log,
            final(self).pos == old(self).pos,
            ({
                let s = old(self).scanner@.source;
                let e = run_end(s, old(self).scanner@.pos, CharClass::WordContinue);
                let token = word_token(s.subrange(old(self).scanner@.start, e));
                &&& final(self).scanner@.pos == e
                &&& final(self).symbols@ == interned(old(self).symbols@, token)
                &&& models(kind, token, final(self).symbols@, lexeme_span(s, old(self).scanner@.start, e))
            }),
    {
        self.eat_class(CharClass::WordContinue);
        if self.scanner.lexeme_is("and") {
            TokenKind::And
        } else if self.scanner.lexeme_is("class") {
            TokenKind::Class
        } else if self.scanner.lexeme_is("else") {
            TokenKind::Else
        } else if self.scanner.lexeme_is("false") {
            TokenKind::Literal(Literal::Bool(false))
        } else if self.scanner.lexeme_is("for") {
            TokenKind::For
        } else if self.scanner.lexeme_is("fun") {
            TokenKind::Fun
        } else if self.scanner.lexeme_is("if") {
            TokenKind::If
        } else if self.scanner.lexeme_is("nil") {
            TokenKind::Literal(Literal::Nil)
        } else if self.scanner.lexeme_is("or") {
            TokenKind::Or
        } else if self.scanner.lexeme_is("print") {
            TokenKind::Print
        } else if self.scanner.lexeme_is("return") {
            TokenKind::Return
        } else if self.scanner.lexeme_is("super") {
            TokenKind::Super
        } else if self.scanner.lexeme_is("this") {
            TokenKind::This
        } else if self.scanner.lexeme_is("true") {
            TokenKind::Literal(Literal::Bool(true))
        } else if self.scanner.lexeme_is("var") {
            TokenKind::Var
        } else if self.scanner.lexeme_is("while") {
            TokenKind::While
        } else {
            let name = self.scanner.lexeme();
            TokenKind::Ident(self.symbols.intern(name))
        }
    }

    /// Returns the next number literal [`TokenKind`] after consuming its first
    /// digit [`char`].
    fn next_number(&mut self) -> (kind: TokenKind)
        requires
            old(self).lexing(old(self).scanner@.start),
            old(self).scanner@.pos == old(self).scanner@.start + 1,
        ensures
            final(self).lexing(old(self).scanner@.start),
            final(self).scanner@.source == old(self).scanner@.source,
            final(self).symbols == old(self).symbols,
            final(self).pos == old(self).pos,
            ({
                let step = number_step(old(self).scanner@.source, old(self).scanner@.start);
                &&& final(self).scanner@.pos == step.end
                &&& models(kind, step.token->0, final(self).symbols@, lexeme_span(old(self).scanner@.source, old(self).scanner@.start, step.end))
                &&& logged(old(self).log@, final(self).log@, step.diags)
            }),
    {
        let ghost s = self.scanner@.source;
        let ghost i = self.scanner@.start;
        proof {
            self.scanner.lemma_wf();
            lemma_run_end(s, i + 1, CharClass::Digit);
            lemma_logged_none(self.log@);
        }
        self.eat_class(CharClass::Digit);
        let ghost e1 = self.scanner@.pos;
        // NOTE: Lox specifies that a trailing decimal point should be lexed as
        // a separate dot token. This lexer keeps it in the number instead,
        // which lets it look ahead only one character; a number on the
        // left-hand side of a dot operator is a type error anyway.
        if self.scanner.eat('.') {
            if !self.is_digit_next() {
                let length = self.scanner.lexeme_length();
                proof {
                    lemma_byte_len_subrange(s, i, e1 + 1);
                    lemma_byte_offset_next(s, e1);
                    lemma_byte_len_subrange(s, e1 + 1, s.len() as int);
                    lemma_dot_width();
                }
                let start = self.pos.add(length - 1);
                let end = start.add(1);
                let span = Span::new(start, end);
                let ghost old_log = self.log@;
                self.log.report(Diag::TrailingDecimal, span);
                proof {
                    lemma_logged_push(old_log, Report { diag: Diag::TrailingDecimal, span }, DiagSpec { diag: Diag::TrailingDecimal, start: byte_offset(s, e1), end: byte_offset(s, e1) + 1 });
                }
            }
            proof {
                lemma_run_end(s, e1 + 1, CharClass::Digit);
            }
            self.eat_class(CharClass::Digit);
        }
        self.number_from_lexeme()
    }

    /// Returns the next string literal [`TokenKind`] after consuming its
    /// opening quote [`char`].
    fn next_string(&mut self) -> (kind: TokenKind)
        requires
            old(self).lexing(old(self).scanner@.start),
            old(self).scanner@.pos == old(self).scanner@.start + 1,
            old(self).scanner@.source[old(self).scanner@.start] == '"',
            can_intern(old(self).symbols@, string_step(old(self).scanner@.source, old(self).scanner@.start).token->0),
        ensures
            final(self).lexing(old(self).scanner@.start),
            final(self).scanner@.source == old(self).scanner@.source,
            final(self).pos == old(self).pos,
            ({
                let step = string_step(old(self).scanner@.source, old(self).scanner@.start);
                &&& final(self).scanner@.pos == step.end
                &&& final(self).symbols@ == interned(old(self).symbols@, step.token->0)
                &&& models(kind, step.token->0, final(self).symbols@, lexeme_span(old(self).scanner@.source, old(self).scanner@.start, step.end))
                &&& logged(old(self).log@, final(self).log@, step.diags)
            }),
    {
        let ghost s = self.scanner@.source;
        let ghost i = self.scanner@.start;
        proof {
            self.scanner.lemma_wf();
            lemma_run_end(s, i + 1, CharClass::InString);
            lemma_logged_none(self.log@);
        }
        self.eat_class(CharClass::InString);
        let ghost e = self.scanner@.pos;
        let lexeme = self.scanner.lexeme();
        proof {
            lemma_quote_width();
            assert(lexeme@.take(1) =~= seq!['"']);
            assert(lexeme@.skip(1) =~= s.subrange(i + 1, e));
        }
        let (_, value) = split_at_char(lexeme, Ghost(1), 1);
        if !self.scanner.eat('"') {
            let length = self.scanner.lexeme_length();
            proof {
                lemma_byte_len_subrange(s, i, e);
                lemma_byte_offset_next(s, i);
                lemma_byte_len_subrange(s, e, s.len() as int);
            }
            let start = self.pos.add(1);
            let end = self.pos.add(length);
            let span = Span::new(start, end);
            let ghost old_log = self.log@;
            self.log.report(Diag::UnterminatedString, span);
            proof {
                lemma_logged_push(old_log, Report { diag: Diag::UnterminatedString, span }, DiagSpec { diag: Diag::UnterminatedString, start: byte_offset(s, i) + 1, end: byte_offset(s, e) });
            }
        }
        TokenKind::Literal(Literal::String(self.symbols.intern(value)))
    }

    /// Reports a [`char`] that begins no token, which is the whole current
    /// lexeme.
    fn report_unexpected(&mut self, c: char)
        requires
            old(self).lexing(old(self).scanner@.start),
            old(self).scanner@.pos == old(self).scanner@.start + 1,
            c == old(self).scanner@.source[old(self).scanner@.start],
        ensures
            final(self).scanner == old(self).scanner,
            final(self).symbols == old(self).symbols,
            final(self).pos == old(self).pos,
            logged(old(self).log@, final(self).log@, grammar::unexpected_step(old(self).scanner@.source, old(self).scanner@.start).diags),
    {
        let ghost s = self.scanner@.source;
        let ghost i = self.scanner@.start;
        proof {
            self.scanner.lemma_wf();
            lemma_byte_len_subrange(s, i, i + 1);
            lemma_byte_len_subrange(s, i + 1, s.len() as int);
        }
        let start = self.pos;
        let end = start.add(self.scanner.lexeme_length());
        let span = Span::new(start, end);
        let ghost old_log = self.log@;
        self.log.report(Diag::UnexpectedChar(c), span);
        proof {
            lemma_logged_push(old_log, Report { diag: Diag::UnexpectedChar(c), span }, DiagSpec { diag: Diag::UnexpectedChar(c), start: byte_offset(s, i), end: byte_offset(s, i + 1) });
        }
    }

    /// Returns the next [`TokenKind`]. This function returns [`None`] if
    /// whitespace, a comment, or an error was encountered.
    fn next_token_kind(&mut self) -> (kind: Option<TokenKind>)
        requires
            old(self).scanner.wf(),
            old(self).scanner@.start == old(self).scanner@.pos,
            old(self).pos@ == byte_offset(old(self).scanner@.source, old(self).scanner@.pos),
            byte_len(old(self).scanner@.source) <= u32::MAX,
            scan_step(old(self).scanner@.source, old(self).scanner@.pos).token matches Some(token)
                ==> can_intern(old(self).symbols@, token),
        ensures
            final(self).scanner.wf(),
            final(self).scanner@.source == old(self).scanner@.source,
            final(self).scanner@.start == old(self).scanner@.start,
            final(self).pos == old(self).pos,
            ({
                let step = scan_step(old(self).scanner@.source, old(self).scanner@.pos);
                &&& final(self).scanner@.pos == step.end
                &&& logged(old(self).log@, final(self).log@, step.diags)
                &&& match step.token {
                    Some(token) => kind matches Some(k) && models(k, token, final(self).symbols@, lexeme_span(old(self).scanner@.source, old(self).scanner@.pos, step.end))
                        && final(self).symbols@ == interned(old(self).symbols@, token),
                    None => kind is None && final(self).symbols@ == old(self).symbols@,
                }
            }),
    {
        let ghost s = self.scanner@.source;
        let ghost i = self.scanner@.pos;
        proof {
            self.scanner.lemma_wf();
            lemma_logged_none(self.log@);
            lemma_scan_step_bounds(s, i);
        }
        let c = match self.scanner.bump() {
            Some(c) => c,
            None => {
                return Some(TokenKind::Eof);
            },
        };
        proof {
            lemma_byte_len_subrange(s, i, i + 1);
            lemma_byte_offset_next(s, i);
            lemma_byte_len_subrange(s, i + 1, s.len() as int);
            lemma_run_end(s, i + 1, CharClass::Whitespace);
        }
        let kind = if is_char_whitespace(c) {
            self.eat_class(CharClass::Whitespace);
            return None;
        } else if is_char_word_start(c) {
            self.next_word()
        } else if is_char_digit(c) {
            self.next_number()
        } else if c == '"' {
            self.next_string()
        } else if c == '(' {
            TokenKind::OpenParen
        } else if c == ')' {
            TokenKind::CloseParen
        } else if c == '{' {
            TokenKind::OpenBrace
        } else if c == '}' {
            TokenKind::CloseBrace
        } else if c == ',' {
            TokenKind::Comma
        } else if c == '.' {
            if self.is_digit_next() {
                let start = self.pos;
                let end = start;
                let span = Span::new(start, end);
                let ghost old_log = self.log@;
                self.log.report(Diag::LeadingDecimal, span);
                proof {
                    lemma_logged_push(old_log, Report { diag: Diag::LeadingDecimal, span }, DiagSpec { diag: Diag::LeadingDecimal, start: byte_offset(s, i), end: byte_offset(s, i) });
                    lemma_run_end(s, i + 1, CharClass::Digit);
                }
                self.eat_class(CharClass::Digit);
                self.number_from_lexeme()
            } else {
                TokenKind::Dot
            }
        } else if c == '-' {
            TokenKind::Minus
        } else if c == '+' {
            TokenKind::Plus
        } else if c == ';' {
            TokenKind::Semi
        } else if c == '/' {
            if self.scanner.eat('/') {
                proof {
                    lemma_run_end(s, i + 2, CharClass::Inline);
                }
                self.eat_class(CharClass::Inline);
                return None;
            }
            TokenKind::Slash
        } else if c == '*' {
            TokenKind::Star
        } else if c == '!' {
            self.next_digraph(TokenKind::Bang, TokenKind::BangEquals)
        } else if c == '=' {
            self.next_digraph(TokenKind::Equals, TokenKind::EqualsEquals)
        } else if c == '>' {
            self.next_digraph(TokenKind::Greater, TokenKind::GreaterEquals)
        } else if c == '<' {
            self.next_digraph(TokenKind::Less, TokenKind::LessEquals)
        } else {
            self.report_unexpected(c);
            assert(scan_step(s, i) == grammar::unexpected_step(s, i));
            return None;
        };
        Some(kind)
    }
}

} // verus!
