mod exprs;
pub mod grammar;
mod stmts;
pub mod infix;
pub mod tree;

use vstd::prelude::*;

use crate::ast::{stmt_view, stmts_view, Ast, Ident, Stmt, StmtView};
use crate::diagnostics::Diag;
use crate::lex::grammar::{interned, lemma_kind_of_eof, lemma_names_fit_by_length, lemma_next_token_bounds, names_fit, next_token_spec, TokenSpec};
use crate::lex::Lexer;
use crate::log::{Log, Report};
use crate::spans::{BytePos, Span};
use crate::symbols::{Symbol, SymbolTable};
use crate::text::{byte_len, byte_offset, lemma_byte_len_ge_len, lemma_byte_len_subrange};
use crate::tokens::{Token, TokenKind, TokenType};

use self::tree::stmt_respects_precedence;
use self::grammar::{
    advanced, keeps, lemma_bump_keeps, ast_loop, bump, eat, expect, parse_ast, is_sync_point, lemma_bump_remaining, parse_ident, peek, remaining, report, report_recovered,
    span_from, start_pos, start_state, sync_loop, synchronize, PState,
};

verus! {

/// Parses and returns an [`Ast`] from source code, a [`SymbolTable`], and a
/// [`Log`]: the declarations of [`parse_ast`] from the first token on.
/// Identifiers and strings are interned into the table, and diagnostics are
/// reported to the log; both keep what they held before. Every infix
/// operation in the tree respects precedence and associativity
/// ([`stmt_respects_precedence`]). The source code's byte offsets must fit in `u32`,
/// and its names and strings in the table.
pub fn parse_source(source: &str, symbols: &mut SymbolTable, log: &mut Log) -> (ast: Ast)
    requires
        byte_len(source@) <= u32::MAX,
        names_fit(old(symbols)@, source@, 0),
    ensures
        ({
            let (decls, st) = parse_ast(source@, start_state(source@, old(symbols)@, old(log)@));
            &&& ast@ == decls
            &&& final(symbols)@ == st.symbols
            &&& final(log)@ == st.log
            &&& peek(st) == TokenType::Eof
            &&& st.pos == source@.len()
        }),
        old(symbols)@.is_prefix_of(final(symbols)@),
        forall|i: int| 0 <= i < ast@.len() ==> stmt_respects_precedence(#[trigger] ast@[i]),
        old(log)@.is_prefix_of(final(log)@),
{
    let ghost symbols0 = symbols@;
    let ghost log0 = log@;
    let mut table = SymbolTable::new_empty();
    std::mem::swap(&mut table, symbols);
    let mut reports = Log::new();
    std::mem::swap(&mut reports, log);
    let mut parser = Parser::new(source, table, reports);
    let ghost st0 = parser@;
    let ast = parser.parse_ast();
    proof {
        parser.lemma_eof();
        assert(keeps(st0, parser@));
    }
    let (table, reports) = parser.into_parts();
    proof {
        assert(symbols0 =~= table@.subrange(0, symbols0.len() as int));
        assert(log0 =~= reports@.subrange(0, log0.len() as int));
    }
    *symbols = table;
    *log = reports;
    ast
}

/// Returns [`true`] if source code is small enough for [`parse_source`] with
/// a [`SymbolTable`]: the table's size plus the source's bytes stays under
/// `u32::MAX`. Then the bytes fit in `u32` offsets, and the names and strings
/// in the table, whatever they are.
pub fn fits_in_table(source: &str, symbols: &SymbolTable) -> (fits: bool)
    ensures
        fits == (symbols@.len() + byte_len(source@) < u32::MAX),
        fits ==> byte_len(source@) <= u32::MAX && names_fit(symbols@, source@, 0),
{
    let bytes = source.as_bytes().len();
    let size = symbols.len();
    proof {
        lemma_byte_len_ge_len(source@);
    }
    if bytes < u32::MAX as usize && size < u32::MAX as usize - bytes {
        proof {
            lemma_names_fit_by_length(symbols@, source@, 0);
        }
        true
    } else {
        false
    }
}

/// A structure which parses an [`Ast`][crate::ast::Ast] from source code.
pub struct Parser<'src> {
    /// The [`Lexer`].
    lexer: Lexer<'src>,
    /// The next [`Token`].
    next_token: Token,
    /// The previous [`Token`]'s end [`BytePos`].
    prev_token_end_pos: BytePos,
    /// Whether the `Parser` is in panic mode.
    is_panicking: bool,
}

impl<'src> View for Parser<'src> {
    type V = PState;

    closed spec fn view(&self) -> PState {
        PState {
            pos: self.lexer@.pos,
            next: self.next_token,
            prev_end: self.prev_token_end_pos@,
            panicking: self.is_panicking,
            symbols: self.lexer@.symbols,
            log: self.lexer@.log,
        }
    }
}

impl<'src> Parser<'src> {
    /// The source code's characters.
    pub closed spec fn source(&self) -> Seq<char> {
        self.lexer@.source
    }

    /// The parser's lexer is well formed, and the names and strings left to
    /// lex fit in its [`SymbolTable`]. The next token ends where the lexer
    /// stands, its span is not reversed, and it starts no earlier than the
    /// previous token ends.
    pub closed spec fn wf(&self) -> bool {
        &&& self.lexer.wf()
        &&& names_fit(self.lexer@.symbols, self.lexer@.source, self.lexer@.pos)
        &&& peek(self@) == TokenType::Eof ==> self.lexer@.pos == self.lexer@.source.len()
        &&& self.next_token.span@.1 == byte_offset(self.lexer@.source, self.lexer@.pos)
        &&& self.prev_token_end_pos@ <= self.next_token.span@.0 <= self.next_token.span@.1
    }

    /// In a well-formed parser the next token ends at the lexer's byte
    /// offset, its span is not reversed, and the previous token ends at or
    /// before the next one starts.
    pub proof fn lemma_positions(&self)
        requires
            self.wf(),
        ensures
            self@.next.span@.1 == byte_offset(self.source(), self@.pos),
            self@.prev_end <= start_pos(self@) <= self@.next.span@.1,
    {
    }

    /// A well-formed parser whose next token is the end of file has lexed the
    /// whole source code.
    pub proof fn lemma_eof(&self)
        requires
            self.wf(),
            peek(self@) == TokenType::Eof,
        ensures
            self@.pos == self.source().len(),
    {
    }

    /// Creates a new `Parser` from source code, a [`SymbolTable`], and a
    /// [`Log`], and reads the first token. The source code's byte offsets
    /// must fit in `u32`, and its names and strings in the table.
    pub fn new(source: &'src str, symbols: SymbolTable, log: Log) -> (parser: Self)
        requires
            byte_len(source@) <= u32::MAX,
            names_fit(symbols@, source@, 0),
        ensures
            parser.wf(),
            parser.source() == source@,
            parser@ == start_state(source@, symbols@, log@),
    {
        let mut lexer = Lexer::new(source, symbols, log);
        proof {
            lemma_next_token_bounds(source@, 0);
        }
        let next_token = lexer.next_token();
        proof {
            let lexed = next_token_spec(source@, 0);
            lemma_kind_of_eof(lexed.token, lexer@.symbols, next_token.span);
            if lexed.end == 0 {
                assert(interned(symbols@, lexed.token) == symbols@);
            }
        }
        Parser { lexer, next_token, prev_token_end_pos: BytePos::new(), is_panicking: false }
    }

    /// Consumes the `Parser` and returns its [`SymbolTable`] and [`Log`].
    pub fn into_parts(self) -> (parts: (SymbolTable, Log))
        ensures
            parts.0@ == self@.symbols,
            parts.1@ == self@.log,
    {
        self.lexer.into_parts()
    }

    /// Returns the next [`Token`]'s [`TokenType`].
    pub fn peek(&self) -> (token_type: TokenType)
        ensures
            token_type == peek(self@),
    {
        self.next_token.token_type()
    }

    /// Returns the next [`Token`]'s start [`BytePos`].
    pub fn start_pos(&self) -> (pos: BytePos)
        ensures
            pos@ == start_pos(self@),
    {
        self.next_token.span().start()
    }

    /// Returns a new [`Span`] from a start [`BytePos`] to the previous
    /// [`Token`]'s end [`BytePos`], or an empty span if that is before it.
    pub fn span_from(&self, start_pos: BytePos) -> (span: Span)
        ensures
            span == span_from(self@, start_pos@),
    {
        let end = self.prev_token_end_pos.max(start_pos);
        let span = Span::new(start_pos, end);
        proof {
            start_pos.lemma_bounded();
            end.lemma_bounded();
            Span::lemma_from_offsets(start_pos@, end@);
            Span::lemma_ext(span, span_from(self@, start_pos@));
        }
        span
    }

    /// Consumes the next [`Token`], which must not be the end of file.
    pub fn bump(&mut self)
        requires
            old(self).wf(),
            peek(old(self)@) != TokenType::Eof,
        ensures
            final(self).wf(),
            final(self).source() == old(self).source(),
            keeps(old(self)@, final(self)@),
            final(self)@ == bump(old(self).source(), old(self)@),
            final(self)@.panicking == old(self)@.panicking,
            remaining(old(self).source(), final(self)@) < remaining(old(self).source(), old(self)@),
            final(self)@.prev_end == old(self)@.next.span@.1,
            final(self)@.prev_end <= start_pos(final(self)@),
    {
        let ghost s = self.lexer@.source;
        let ghost p = self.lexer@.pos;
        proof {
            reveal(bump);
            lemma_bump_remaining(s, self@);
            lemma_bump_keeps(s, self@);
            self.lexer.lemma_wf();
            lemma_next_token_bounds(s, p);
            if p == next_token_spec(s, p).end {
                assert(interned(self.lexer@.symbols, next_token_spec(s, p).token) == self.lexer@.symbols);
            }
        }
        self.prev_token_end_pos = self.next_token.span().end();
        self.next_token = self.lexer.next_token();
        proof {
            lemma_kind_of_eof(next_token_spec(s, p).token, self.lexer@.symbols, self.next_token.span);
            lemma_byte_len_subrange(s, p, next_token_spec(s, p).start);
        }
    }

    /// Consumes the next [`Token`], which should always match an expected
    /// [`TokenType`]. This function must only be used where it can *never* fail
    /// to user syntax error.
    pub fn bump_assert(&mut self, token_type: TokenType)
        requires
            old(self).wf(),
            peek(old(self)@) == token_type,
            token_type != TokenType::Eof,
        ensures
            final(self).wf(),
            final(self).source() == old(self).source(),
            keeps(old(self)@, final(self)@),
            final(self)@ == bump(old(self).source(), old(self)@),
            final(self)@.panicking == old(self)@.panicking,
            remaining(old(self).source(), final(self)@) < remaining(old(self).source(), old(self)@),
            final(self)@.prev_end == old(self)@.next.span@.1,
            final(self)@.prev_end <= start_pos(final(self)@),
    {
        self.bump();
    }

    /// Consumes the next [`Token`] if it matches an expected [`TokenType`].
    /// This function returns [`true`] if a [`Token`] was consumed.
    pub fn eat(&mut self, token_type: TokenType) -> (is_match: bool)
        requires
            old(self).wf(),
            token_type == TokenType::Eof ==> peek(old(self)@) != TokenType::Eof,
        ensures
            final(self).wf(),
            final(self).source() == old(self).source(),
            keeps(old(self)@, final(self)@),
            (is_match, final(self)@) == eat(old(self).source(), old(self)@, token_type),
            final(self)@.panicking == old(self)@.panicking,
            is_match ==> remaining(old(self).source(), final(self)@) < remaining(old(self).source(), old(self)@),
            !is_match ==> final(self)@ == old(self)@,
    {
        let is_match = self.peek() == token_type;
        if is_match {
            self.bump();
        }
        is_match
    }

    /// Consumes the next [`Token`] if it matches an expected [`TokenType`].
    /// This function reports a [`Diag`] if no [`Token`] was consumed.
    pub fn expect(&mut self, token_type: TokenType)
        requires
            old(self).wf(),
            token_type == TokenType::Eof ==> peek(old(self)@) != TokenType::Eof,
        ensures
            final(self).wf(),
            final(self).source() == old(self).source(),
            keeps(old(self)@, final(self)@),
            final(self)@ == expect(old(self).source(), old(self)@, token_type),
            advanced(old(self).source(), old(self)@, final(self)@),
            old(self)@.panicking ==> final(self)@.panicking,
    {
        if !self.eat(token_type) {
            let kind = self.next_token.kind();
            let span = self.next_token.span();
            self.report(Diag::UnexpectedToken(token_type, kind), span);
        }
    }

    /// Reports a [`Diag`] at a [`Span`], and enters panic mode.
    pub fn report(&mut self, diag: Diag, span: Span)
        requires
            old(self).wf(),
        ensures
            final(self).wf(),
            final(self).source() == old(self).source(),
            keeps(old(self)@, final(self)@),
            final(self)@ == report(old(self)@, diag, span),
            final(self)@.pos == old(self)@.pos,
            final(self)@.next == old(self)@.next,
            final(self)@.panicking,
    {
        self.report_recovered(diag, span);
        self.is_panicking = true;
    }

    /// Reports a recovered [`Diag`] at a [`Span`], unless the `Parser` is in
    /// panic mode.
    pub fn report_recovered(&mut self, diag: Diag, span: Span)
        requires
            old(self).wf(),
        ensures
            final(self).wf(),
            final(self).source() == old(self).source(),
            keeps(old(self)@, final(self)@),
            final(self)@ == report_recovered(old(self)@, diag, span),
            final(self)@.pos == old(self)@.pos,
            final(self)@.next == old(self)@.next,
            final(self)@.panicking == old(self)@.panicking,
    {
        if self.is_panicking {
            return;
        }
        self.lexer.report(diag, span);
    }

    /// Synchronizes the `Parser` out of panic mode: tokens are skipped up to
    /// the end of file, a semicolon (skipped too), or a token that begins a
    /// declaration.
    pub fn synchronize(&mut self)
        requires
            old(self).wf(),
        ensures
            final(self).wf(),
            final(self).source() == old(self).source(),
            keeps(old(self)@, final(self)@),
            final(self)@ == synchronize(old(self).source(), old(self)@),
            remaining(old(self).source(), final(self)@) <= remaining(old(self).source(), old(self)@),
            old(self)@.panicking && peek(old(self)@) != TokenType::Eof ==> remaining(old(self).source(), final(self)@)
                < remaining(old(self).source(), old(self)@),
    {
        if !self.is_panicking {
            return;
        }
        let ghost s = self.source();
        let ghost st0 = self@;
        while self.peek() != TokenType::Eof
            invariant_except_break
                self.wf(),
                self.source() == s,
                keeps(st0, self@),
                sync_loop(s, self@) == sync_loop(s, st0),
                remaining(s, self@) <= remaining(s, st0),
                self@ != st0 ==> remaining(s, self@) < remaining(s, st0),
            ensures
                self.wf(),
                self.source() == s,
                keeps(st0, self@),
                self@ == sync_loop(s, st0),
                remaining(s, self@) <= remaining(s, st0),
                peek(st0) != TokenType::Eof ==> remaining(s, self@) < remaining(s, st0),
            decreases remaining(s, self@),
        {
            let ghost st = self@;
            proof {
                lemma_bump_remaining(s, st);
            }
            self.bump();
            let next = self.peek();
            if next == TokenType::Semi {
                proof {
                    lemma_bump_remaining(s, self@);
                }
                self.bump();
                break;
            }
            if next == TokenType::Class || next == TokenType::For || next == TokenType::Fun || next == TokenType::If
                || next == TokenType::Print || next == TokenType::Return || next == TokenType::Var
                || next == TokenType::While {
                break;
            }
        }
        self.is_panicking = false;
    }

    /// Parses and returns an [`Ident`]. Another token is reported; a keyword
    /// is consumed in its place, else the `Parser` enters panic mode. Either
    /// gives the error [`Symbol`].
    pub fn parse_ident(&mut self) -> (ident: Ident)
        requires
            old(self).wf(),
        ensures
            final(self).wf(),
            final(self).source() == old(self).source(),
            keeps(old(self)@, final(self)@),
            (ident, final(self)@) == parse_ident(old(self).source(), old(self)@),
            remaining(old(self).source(), final(self)@) <= remaining(old(self).source(), old(self)@),
            remaining(old(self).source(), final(self)@) < remaining(old(self).source(), old(self)@)
                || (final(self)@.pos == old(self)@.pos && final(self)@.next == old(self)@.next),
            old(self)@.panicking ==> final(self)@.panicking,
    {
        let ghost s = self.source();
        let start_pos = self.start_pos();
        let symbol = if let TokenKind::Ident(symbol) = self.next_token.kind() {
            proof {
                lemma_bump_remaining(s, self@);
            }
            self.bump();
            symbol
        } else {
            let diag = Diag::UnexpectedToken(TokenType::Ident, self.next_token.kind());
            let span = self.next_token.span();
            if self.next_token.is_keyword() {
                proof {
                    lemma_bump_remaining(s, self@);
                }
                self.bump();
                self.report_recovered(diag, span);
            } else {
                self.report(diag, span);
            }
            Symbol::error()
        };
        Ident { symbol, span: self.span_from(start_pos) }
    }

    /// Parses and returns an [`Ast`]: declarations up to the end of file.
    pub fn parse_ast(&mut self) -> (ast: Ast)
        requires
            old(self).wf(),
        ensures
            final(self).wf(),
            final(self).source() == old(self).source(),
            keeps(old(self)@, final(self)@),
            (ast@, final(self)@) == parse_ast(old(self).source(), old(self)@),
            forall|i: int| 0 <= i < ast@.len() ==> stmt_respects_precedence(#[trigger] ast@[i]),
            peek(final(self)@) == TokenType::Eof,
    {
        let ghost s = self.source();
        let ghost st0 = self@;
        let mut decls: Vec<Stmt> = Vec::new();
        proof {
            assert(stmts_view(decls@) =~= Seq::<StmtView>::empty());
        }
        while self.peek() != TokenType::Eof
            invariant
                self.wf(),
                self.source() == s,
                keeps(st0, self@),
                ast_loop(s, self@, stmts_view(decls@)) == ast_loop(s, st0, Seq::empty()),
                forall|i: int| 0 <= i < decls@.len() ==> stmt_respects_precedence(#[trigger] stmts_view(decls@)[i]),
            decreases remaining(s, self@),
        {
            let decl = self.parse_decl();
            let ghost old_decls = decls@;
            decls.push(decl);
            proof {
                assert(stmts_view(decls@) =~= stmts_view(old_decls).push(stmt_view(decl)));
            }
        }
        Ast(decls)
    }
}

} // verus!
