//! The grammar of Lox and the parser's error recovery, as spec functions over
//! the parser's state. Every function takes the source code's characters and
//! a state, and gives what it parses and the state after it.
use vstd::prelude::*;

use crate::ast::{ExprKindView, ExprView, Ident, StmtKindView, StmtView, UnOp};
use crate::diagnostics::Diag;
use crate::lex::grammar::{interned, lemma_next_token_bounds, next_token_spec, token_of, TokenSpec};
use crate::lex::reports_of;
use crate::log::Report;
use crate::spans::Span;
use crate::symbols::Symbol;
use crate::tokens::{Token, TokenKind, TokenType};

use super::infix::InfixOp;

verus! {

/// What a parser has read and written.
pub struct PState {
    /// The index of the lexer's next character, after the next token.
    pub pos: int,
    /// The next token, read but not consumed.
    pub next: Token,
    /// The byte offset where the previous token ends.
    pub prev_end: nat,
    /// Whether the parser is in panic mode, in which reports are dropped.
    pub panicking: bool,
    /// The interned strings.
    pub symbols: Seq<Seq<char>>,
    /// The reports.
    pub log: Seq<Report>,
}

/// The next token's [`TokenType`].
pub open spec fn peek(st: PState) -> TokenType {
    st.next.kind.spec_token_type()
}

/// A measure of the tokens left: the characters after the lexer, plus one if
/// the next token is not the end of file. Consuming a token lowers it.
pub open spec fn remaining(s: Seq<char>, st: PState) -> nat {
    (if 0 <= st.pos <= s.len() { (s.len() - st.pos) as nat } else { 0 }) + (if peek(st) == TokenType::Eof { 0nat } else { 1nat })
}

/// The state after consuming the next token: the lexer reads the token after
/// it.
#[verifier::opaque]
pub open spec fn bump(s: Seq<char>, st: PState) -> PState {
    let lexed = next_token_spec(s, st.pos);
    let symbols = interned(st.symbols, lexed.token);
    PState {
        pos: lexed.end,
        next: token_of(s, lexed, symbols),
        prev_end: st.next.span@.1,
        panicking: st.panicking,
        symbols,
        log: st.log + reports_of(lexed.diags),
    }
}

/// Consuming a token other than the end of file lowers [`remaining`].
pub proof fn lemma_bump_remaining(s: Seq<char>, st: PState)
    requires
        peek(st) != TokenType::Eof,
    ensures
        remaining(s, bump(s, st)) < remaining(s, st),
{
    reveal(bump);
    let lexed = next_token_spec(s, st.pos);
    if 0 <= st.pos <= s.len() {
        lemma_next_token_bounds(s, st.pos);
    }
    if lexed.token == TokenSpec::Plain(TokenType::Eof) {
        assert(peek(bump(s, st)) == TokenType::Eof);
    } else {
        assert(peek(bump(s, st)) != TokenType::Eof) by {
            match lexed.token {
                TokenSpec::Plain(t) => {},
                _ => {},
            }
        }
    }
}

/// Whether a later state keeps every interned string and every report of an
/// earlier one, in its place.
pub open spec fn keeps(old: PState, new: PState) -> bool {
    &&& old.symbols.len() <= new.symbols.len()
    &&& forall|i: int| 0 <= i < old.symbols.len() ==> #[trigger] new.symbols[i] == old.symbols[i]
    &&& old.log.len() <= new.log.len()
    &&& forall|i: int| 0 <= i < old.log.len() ==> #[trigger] new.log[i] == old.log[i]
}

/// Consuming a token keeps the table and the log: the lexer only adds to
/// them.
pub proof fn lemma_bump_keeps(s: Seq<char>, st: PState)
    ensures
        keeps(st, bump(s, st)),
{
    reveal(bump);
}

/// Whether a parse went from one state to another by consuming tokens, or
/// else left the lexer and the next token as they were.
pub open spec fn advanced(s: Seq<char>, old: PState, new: PState) -> bool {
    ||| remaining(s, new) < remaining(s, old)
    ||| new.pos == old.pos && new.next == old.next
}

/// Whether a parse consumed a token, or else entered panic mode.
pub open spec fn progressed(s: Seq<char>, old: PState, new: PState) -> bool {
    remaining(s, new) < remaining(s, old) || new.panicking
}

/// The state after reporting a recovered [`Diag`] at a [`Span`]: reported
/// unless the parser is in panic mode.
pub open spec fn report_recovered(st: PState, diag: Diag, span: Span) -> PState {
    if st.panicking {
        st
    } else {
        PState { log: st.log.push(Report { diag, span }), ..st }
    }
}

/// The state after reporting a [`Diag`] at a [`Span`]: the parser enters
/// panic mode.
pub open spec fn report(st: PState, diag: Diag, span: Span) -> PState {
    PState { panicking: true, ..report_recovered(st, diag, span) }
}

/// Whether the next token is of a [`TokenType`], and the state after
/// consuming it if so.
pub open spec fn eat(s: Seq<char>, st: PState, token_type: TokenType) -> (bool, PState) {
    if peek(st) == token_type {
        (true, bump(s, st))
    } else {
        (false, st)
    }
}

/// The state after consuming a token of an expected [`TokenType`], or after
/// reporting that the next token is not one.
pub open spec fn expect(s: Seq<char>, st: PState, token_type: TokenType) -> PState {
    if peek(st) == token_type {
        bump(s, st)
    } else {
        report(st, Diag::UnexpectedToken(token_type, st.next.kind), st.next.span)
    }
}

/// The next token's start byte offset.
pub open spec fn start_pos(st: PState) -> nat {
    st.next.span@.0
}

/// The [`Span`] from a start byte offset to the previous token's end, or an
/// empty span if nothing was consumed since.
pub open spec fn span_from(st: PState, start: nat) -> Span {
    Span::from_offsets(start, if st.prev_end <= start { start } else { st.prev_end })
}

/// An identifier, and the state after it. Another token is reported; a
/// keyword is consumed in its place, else the parser panics. Either gives the
/// error [`Symbol`].
pub open spec fn parse_ident(s: Seq<char>, st: PState) -> (Ident, PState) {
    let start = start_pos(st);
    let (symbol, st1) = match st.next.kind {
        TokenKind::Ident(symbol) => (symbol, bump(s, st)),
        kind => {
            let diag = Diag::UnexpectedToken(TokenType::Ident, kind);
            let span = st.next.span;
            if kind.spec_token_type().spec_is_keyword() {
                (Symbol(0), report_recovered(bump(s, st), diag, span))
            } else {
                (Symbol(0), report(st, diag, span))
            }
        },
    };
    (Ident { symbol, span: span_from(st1, start) }, st1)
}

/// An expression of a kind that starts at a byte offset and ends with the
/// previous token.
pub open spec fn make_expr(kind: ExprKindView, start: nat, st: PState) -> ExprView {
    ExprView { kind, span: span_from(st, start) }
}

/// The expression of an assignment to a target: a variable or a property.
/// Another target is reported, and gives the error variable.
pub open spec fn make_assign(lhs: ExprView, rhs: ExprView, start: nat, st: PState) -> (ExprView, PState) {
    let (kind, st1) = match lhs.kind {
        ExprKindView::Variable(symbol) => (
            ExprKindView::AssignVar(Ident { symbol, span: lhs.span }, Box::new(rhs)),
            st,
        ),
        ExprKindView::Property(instance, name) => (ExprKindView::AssignField(instance, name, Box::new(rhs)), st),
        _ => (ExprKindView::Variable(Symbol(0)), report_recovered(st, Diag::InvalidAssign, lhs.span)),
    };
    (make_expr(kind, start, st1), st1)
}

/// The expression of an infix operator applied to two operands.
pub open spec fn make_infix(op: InfixOp, lhs: ExprView, rhs: ExprView, start: nat, st: PState) -> (ExprView, PState) {
    match op {
        InfixOp::Assign => make_assign(lhs, rhs, start, st),
        InfixOp::Binary(op) => (make_expr(ExprKindView::Binary(op, Box::new(lhs), Box::new(rhs)), start, st), st),
        InfixOp::Logic(op) => (make_expr(ExprKindView::Logic(op, Box::new(lhs), Box::new(rhs)), start, st), st),
    }
}

/// An expression.
pub open spec fn parse_expr(s: Seq<char>, st: PState) -> (ExprView, PState)
    decreases remaining(s, st), 10nat,
{
    parse_infix(s, st, 0)
}

/// An expression whose infix operators bind at least as tightly as
/// `min_precedence`.
pub open spec fn parse_infix(s: Seq<char>, st: PState, min_precedence: u8) -> (ExprView, PState)
    decreases remaining(s, st), 9nat,
{
    let start = start_pos(st);
    let (lhs, st1) = parse_unary(s, st);
    if remaining(s, st1) <= remaining(s, st) {
        infix_loop(s, st1, lhs, start, min_precedence)
    } else {
        (lhs, st1)
    }
}

/// The infix operators that follow a left operand, each with its right
/// operand, while they bind at least as tightly as `min_precedence`.
pub open spec fn infix_loop(s: Seq<char>, st: PState, lhs: ExprView, start: nat, min_precedence: u8) -> (ExprView, PState)
    decreases remaining(s, st), 8nat,
{
    match InfixOp::spec_from_token_type(peek(st)) {
        Some(op) => {
            if op.spec_precedence() < min_precedence {
                (lhs, st)
            } else {
                proof {
                    lemma_bump_remaining(s, st);
                }
                let st1 = bump(s, st);
                let (rhs, st2) = parse_infix(s, st1, op.spec_rhs_precedence());
                let (lhs1, st3) = make_infix(op, lhs, rhs, start, st2);
                if remaining(s, st3) < remaining(s, st) {
                    infix_loop(s, st3, lhs1, start, min_precedence)
                } else {
                    (lhs1, st3)
                }
            }
        },
        None => (lhs, st),
    }
}

/// A unary expression: prefix operators, then a call expression.
pub open spec fn parse_unary(s: Seq<char>, st: PState) -> (ExprView, PState)
    decreases remaining(s, st), 7nat,
{
    let start = start_pos(st);
    if peek(st) == TokenType::Minus || peek(st) == TokenType::Bang {
        let op = if peek(st) == TokenType::Minus { UnOp::Minus } else { UnOp::Not };
        proof {
            lemma_bump_remaining(s, st);
        }
        let (rhs, st1) = parse_unary(s, bump(s, st));
        (make_expr(ExprKindView::Unary(op, Box::new(rhs)), start, st1), st1)
    } else {
        parse_call(s, st)
    }
}

/// A call expression: a primary expression, then calls and properties.
pub open spec fn parse_call(s: Seq<char>, st: PState) -> (ExprView, PState)
    decreases remaining(s, st), 6nat,
{
    let start = start_pos(st);
    let (lhs, st1) = parse_primary(s, st);
    if remaining(s, st1) <= remaining(s, st) {
        call_loop(s, st1, lhs, start)
    } else {
        (lhs, st1)
    }
}

/// The calls and properties that follow an expression.
pub open spec fn call_loop(s: Seq<char>, st: PState, lhs: ExprView, start: nat) -> (ExprView, PState)
    decreases remaining(s, st), 5nat,
{
    if peek(st) == TokenType::OpenParen {
        let (args, st1) = parse_args(s, st);
        let lhs1 = make_expr(ExprKindView::Call(Box::new(lhs), args), start, st1);
        if remaining(s, st1) < remaining(s, st) {
            call_loop(s, st1, lhs1, start)
        } else {
            (lhs1, st1)
        }
    } else if peek(st) == TokenType::Dot {
        proof {
            lemma_bump_remaining(s, st);
        }
        let (ident, st1) = parse_ident(s, bump(s, st));
        let lhs1 = make_expr(ExprKindView::Property(Box::new(lhs), ident), start, st1);
        if remaining(s, st1) < remaining(s, st) {
            call_loop(s, st1, lhs1, start)
        } else {
            (lhs1, st1)
        }
    } else {
        (lhs, st)
    }
}

/// The arguments of a call, from its opening parenthesis.
pub open spec fn parse_args(s: Seq<char>, st: PState) -> (Seq<ExprView>, PState)
    decreases remaining(s, st), 4nat,
{
    if peek(st) == TokenType::Eof {
        (Seq::empty(), st)
    } else {
        proof {
            lemma_bump_remaining(s, st);
        }
        let st1 = bump(s, st);
        let (closed, st2) = eat(s, st1, TokenType::CloseParen);
        if closed {
            (Seq::empty(), st2)
        } else {
            let (first, st3) = parse_expr(s, st1);
            let (args, st4) = if remaining(s, st3) <= remaining(s, st1) {
                args_loop(s, st3, seq![first])
            } else {
                (seq![first], st3)
            };
            (args, expect(s, st4, TokenType::CloseParen))
        }
    }
}

/// The arguments that follow a first one, each after a comma.
pub open spec fn args_loop(s: Seq<char>, st: PState, args: Seq<ExprView>) -> (Seq<ExprView>, PState)
    decreases remaining(s, st), 3nat,
{
    if peek(st) == TokenType::Comma {
        proof {
            lemma_bump_remaining(s, st);
        }
        let (arg, st1) = parse_expr(s, bump(s, st));
        if remaining(s, st1) < remaining(s, st) {
            args_loop(s, st1, args.push(arg))
        } else {
            (args.push(arg), st1)
        }
    } else {
        (args, st)
    }
}

/// A primary expression: a literal, a variable, a parenthesized expression,
/// `super` with a method, or `this`. Another token is reported, and gives
/// the error variable.
pub open spec fn parse_primary(s: Seq<char>, st: PState) -> (ExprView, PState)
    decreases remaining(s, st), 2nat,
{
    let start = start_pos(st);
    match st.next.kind {
        TokenKind::Literal(literal) => {
            let st1 = bump(s, st);
            (make_expr(ExprKindView::Literal(literal), start, st1), st1)
        },
        TokenKind::Ident(symbol) => {
            let st1 = bump(s, st);
            (make_expr(ExprKindView::Variable(symbol), start, st1), st1)
        },
        TokenKind::OpenParen => {
            proof {
                lemma_bump_remaining(s, st);
            }
            let (inner, st1) = parse_expr(s, bump(s, st));
            let st2 = expect(s, st1, TokenType::CloseParen);
            (make_expr(ExprKindView::Paren(Box::new(inner)), start, st2), st2)
        },
        TokenKind::Super => {
            let st1 = expect(s, bump(s, st), TokenType::Dot);
            let (ident, st2) = parse_ident(s, st1);
            (make_expr(ExprKindView::Super(ident), start, st2), st2)
        },
        TokenKind::This => {
            let st1 = bump(s, st);
            (make_expr(ExprKindView::This, start, st1), st1)
        },
        kind => {
            let st1 = report(st, Diag::ExpectedExpr(kind), st.next.span);
            (make_expr(ExprKindView::Variable(Symbol(0)), start, st1), st1)
        },
    }
}

/// A statement of a kind that starts at a byte offset and ends with the
/// previous token.
pub open spec fn make_stmt(kind: StmtKindView, start: nat, st: PState) -> StmtView {
    StmtView { kind, span: span_from(st, start) }
}

/// Whether a [`TokenType`] begins a declaration that panic mode stops at.
pub open spec fn is_sync_point(token_type: TokenType) -> bool {
    token_type == TokenType::Class || token_type == TokenType::For || token_type == TokenType::Fun
        || token_type == TokenType::If || token_type == TokenType::Print || token_type == TokenType::Return
        || token_type == TokenType::Var || token_type == TokenType::While
}

/// The state after skipping tokens in panic mode: each token is consumed up
/// to the end of file, a semicolon (consumed too) or a token that begins a
/// declaration.
pub open spec fn sync_loop(s: Seq<char>, st: PState) -> PState
    decreases remaining(s, st),
{
    if peek(st) == TokenType::Eof {
        st
    } else {
        proof {
            lemma_bump_remaining(s, st);
        }
        let st1 = bump(s, st);
        if peek(st1) == TokenType::Semi {
            bump(s, st1)
        } else if is_sync_point(peek(st1)) {
            st1
        } else {
            sync_loop(s, st1)
        }
    }
}

/// The state after leaving panic mode, if the parser is in it.
pub open spec fn synchronize(s: Seq<char>, st: PState) -> PState {
    if !st.panicking {
        st
    } else {
        PState { panicking: false, ..sync_loop(s, st) }
    }
}

/// A declaration: a statement, after which the parser leaves panic mode.
pub open spec fn parse_decl(s: Seq<char>, st: PState) -> (StmtView, PState)
    decreases remaining(s, st), 3nat,
{
    let (stmt, st1) = parse_stmt(s, st);
    (stmt, synchronize(s, st1))
}

/// A statement: a block, a print statement or an expression statement.
pub open spec fn parse_stmt(s: Seq<char>, st: PState) -> (StmtView, PState)
    decreases remaining(s, st), 2nat,
{
    let start = start_pos(st);
    let (kind, st1) = if peek(st) == TokenType::OpenBrace {
        parse_block(s, st)
    } else if peek(st) == TokenType::Print {
        parse_print(s, st)
    } else {
        parse_stmt_expr(s, st)
    };
    (make_stmt(kind, start, st1), st1)
}

/// A print statement, from its keyword: an expression and a semicolon.
pub open spec fn parse_print(s: Seq<char>, st: PState) -> (StmtKindView, PState) {
    let (value, st1) = parse_expr(s, bump(s, st));
    (StmtKindView::Print(Box::new(value)), expect(s, st1, TokenType::Semi))
}

/// An expression statement: an expression and a semicolon.
pub open spec fn parse_stmt_expr(s: Seq<char>, st: PState) -> (StmtKindView, PState) {
    let (expr, st1) = parse_expr(s, st);
    (StmtKindView::Expr(Box::new(expr)), expect(s, st1, TokenType::Semi))
}

/// A block, from its opening brace: declarations up to a closing brace.
pub open spec fn parse_block(s: Seq<char>, st: PState) -> (StmtKindView, PState)
    decreases remaining(s, st), 1nat,
{
    if peek(st) == TokenType::Eof {
        (StmtKindView::Block(Seq::empty()), st)
    } else {
        proof {
            lemma_bump_remaining(s, st);
        }
        let (decls, st1) = block_loop(s, bump(s, st), Seq::empty());
        (StmtKindView::Block(decls), expect(s, st1, TokenType::CloseBrace))
    }
}

/// The declarations of a block, up to a closing brace or the end of file.
pub open spec fn block_loop(s: Seq<char>, st: PState, decls: Seq<StmtView>) -> (Seq<StmtView>, PState)
    decreases remaining(s, st), 4nat,
{
    if peek(st) == TokenType::Eof || peek(st) == TokenType::CloseBrace {
        (decls, st)
    } else {
        let (decl, st1) = parse_decl(s, st);
        if remaining(s, st1) < remaining(s, st) {
            block_loop(s, st1, decls.push(decl))
        } else {
            (decls.push(decl), st1)
        }
    }
}

/// A whole program: its declarations up to the end of file.
pub open spec fn parse_ast(s: Seq<char>, st: PState) -> (Seq<StmtView>, PState) {
    ast_loop(s, st, Seq::empty())
}

/// The declarations of a whole program, up to the end of file.
pub open spec fn ast_loop(s: Seq<char>, st: PState, decls: Seq<StmtView>) -> (Seq<StmtView>, PState)
    decreases remaining(s, st),
{
    if peek(st) == TokenType::Eof {
        (decls, st)
    } else {
        let (decl, st1) = parse_decl(s, st);
        if remaining(s, st1) < remaining(s, st) {
            ast_loop(s, st1, decls.push(decl))
        } else {
            (decls.push(decl), st1)
        }
    }
}

/// The state of a parser that has read the first token of source code, with
/// a table and a log to start from.
pub open spec fn start_state(s: Seq<char>, symbols: Seq<Seq<char>>, log: Seq<Report>) -> PState {
    let lexed = next_token_spec(s, 0);
    let symbols1 = interned(symbols, lexed.token);
    PState {
        pos: lexed.end,
        next: token_of(s, lexed, symbols1),
        prev_end: 0,
        panicking: false,
        symbols: symbols1,
        log: log + reports_of(lexed.diags),
    }
}

/// A primary expression made of a literal token is that token's literal,
/// and one made of an identifier is a variable of its symbol; either way
/// the token is consumed, and nothing more.
pub proof fn law_primary_token(s: Seq<char>, st: PState)
    ensures
        st.next.kind matches TokenKind::Literal(literal) ==> parse_primary(s, st).0.kind == ExprKindView::Literal(
            literal,
        ) && parse_primary(s, st).1 == bump(s, st),
        st.next.kind matches TokenKind::Ident(name) ==> parse_primary(s, st).0.kind == ExprKindView::Variable(name)
            && parse_primary(s, st).1 == bump(s, st),
{
}

/// An expression made of one literal token, followed by a token that
/// neither calls, accesses nor operates on it (a semicolon, a closing
/// parenthesis, a comma or the end of file), is that token's literal.
pub proof fn law_literal_expression(s: Seq<char>, st: PState)
    requires
        st.next.kind is Literal,
        peek(bump(s, st)) == TokenType::Semi || peek(bump(s, st)) == TokenType::CloseParen || peek(bump(s, st))
            == TokenType::Comma || peek(bump(s, st)) == TokenType::Eof,
    ensures
        parse_expr(s, st).0.kind == ExprKindView::Literal(st.next.kind->Literal_0),
        parse_expr(s, st).1 == bump(s, st),
{
    lemma_bump_remaining(s, st);
    let st1 = bump(s, st);
    assert(parse_primary(s, st) == (make_expr(ExprKindView::Literal(st.next.kind->Literal_0), start_pos(st), st1), st1));
    assert(call_loop(s, st1, parse_primary(s, st).0, start_pos(st)) == parse_primary(s, st));
    assert(parse_call(s, st) == parse_primary(s, st));
    assert(parse_unary(s, st) == parse_call(s, st));
    assert(InfixOp::spec_from_token_type(peek(st1)) is None);
    assert(infix_loop(s, st1, parse_unary(s, st).0, start_pos(st), 0) == parse_unary(s, st));
}

/// Panic mode skips tokens up to a semicolon, which it consumes, or up to a
/// keyword that begins a declaration (`class`, `for`, `fun`, `if`, `print`,
/// `return`, `var`, `while`), which it leaves, or up to the end of file; it
/// always consumes at least the token it starts at, and then leaves panic
/// mode. Outside panic mode, synchronizing changes nothing.
pub proof fn law_synchronize_stops(s: Seq<char>, st: PState)
    ensures
        !st.panicking ==> synchronize(s, st) == st,
        !synchronize(s, st).panicking,
        st.panicking && peek(st) == TokenType::Eof ==> synchronize(s, st) == (PState { panicking: false, ..st }),
        st.panicking && peek(st) != TokenType::Eof && peek(bump(s, st)) == TokenType::Semi ==> synchronize(s, st) == (
        PState { panicking: false, ..bump(s, bump(s, st)) }),
        ({
            let next = peek(bump(s, st));
            st.panicking && peek(st) != TokenType::Eof && (next == TokenType::Class || next == TokenType::For || next
                == TokenType::Fun || next == TokenType::If || next == TokenType::Print || next == TokenType::Return
                || next == TokenType::Var || next == TokenType::While) ==> synchronize(s, st) == (PState {
                panicking: false,
                ..bump(s, st)
            })
        }),
        ({
            let next = peek(bump(s, st));
            st.panicking && peek(st) != TokenType::Eof && !(next == TokenType::Semi || next == TokenType::Class || next
                == TokenType::For || next == TokenType::Fun || next == TokenType::If || next == TokenType::Print || next
                == TokenType::Return || next == TokenType::Var || next == TokenType::While) ==> synchronize(s, st)
                == synchronize(s, bump(s, st))
        }),
{
    reveal(bump);
}

/// A prefix `-` negates and a prefix `!` inverts the unary expression that
/// follows it.
pub proof fn law_unary_operators(s: Seq<char>, st: PState)
    ensures
        peek(st) == TokenType::Minus ==> parse_unary(s, st).0.kind == ExprKindView::Unary(
            UnOp::Minus,
            Box::new(parse_unary(s, bump(s, st)).0),
        ),
        peek(st) == TokenType::Bang ==> parse_unary(s, st).0.kind == ExprKindView::Unary(
            UnOp::Not,
            Box::new(parse_unary(s, bump(s, st)).0),
        ),
{
}

/// A parenthesized expression holds the expression after the opening
/// parenthesis, and expects a closing one after it.
pub proof fn law_paren(s: Seq<char>, st: PState)
    requires
        st.next.kind == TokenKind::OpenParen,
    ensures
        parse_primary(s, st).0.kind == ExprKindView::Paren(Box::new(parse_expr(s, bump(s, st)).0)),
        parse_primary(s, st).1 == expect(s, parse_expr(s, bump(s, st)).1, TokenType::CloseParen),
{
}

/// An assignment to a variable or a property keeps the target's name and
/// takes the value as given; any other target is reported as invalid (an
/// error variable takes the assignment's place).
pub proof fn law_assign_targets(lhs: ExprView, rhs: ExprView, start: nat, st: PState)
    ensures
        lhs.kind matches ExprKindView::Variable(name) ==> make_assign(lhs, rhs, start, st).0.kind
            == ExprKindView::AssignVar(Ident { symbol: name, span: lhs.span }, Box::new(rhs)) && make_assign(
            lhs,
            rhs,
            start,
            st,
        ).1 == st,
        lhs.kind matches ExprKindView::Property(instance, name) ==> make_assign(lhs, rhs, start, st).0.kind
            == ExprKindView::AssignField(instance, name, Box::new(rhs)) && make_assign(lhs, rhs, start, st).1 == st,
        !(lhs.kind is Variable || lhs.kind is Property) ==> make_assign(lhs, rhs, start, st).0.kind
            == ExprKindView::Variable(Symbol(0)) && make_assign(lhs, rhs, start, st).1 == (if st.panicking {
            st
        } else {
            PState { log: st.log.push(Report { diag: Diag::InvalidAssign, span: lhs.span }), ..st }
        }),
{
}

/// A print statement prints the expression after the `print` keyword; a
/// block holds the declarations after its opening brace; any other
/// statement is an expression statement.
pub proof fn law_statement_kinds(s: Seq<char>, st: PState)
    ensures
        peek(st) == TokenType::Print ==> parse_stmt(s, st).0.kind == StmtKindView::Print(
            Box::new(parse_expr(s, bump(s, st)).0),
        ),
        peek(st) == TokenType::OpenBrace ==> parse_stmt(s, st).0.kind == StmtKindView::Block(
            block_loop(s, bump(s, st), Seq::empty()).0,
        ),
        peek(st) != TokenType::Print && peek(st) != TokenType::OpenBrace ==> parse_stmt(s, st).0.kind
            == StmtKindView::Expr(Box::new(parse_expr(s, st).0)),
{
    if peek(st) == TokenType::OpenBrace {
        assert(peek(st) != TokenType::Eof);
    }
}

/// An infix operation keeps its operands in the order written: the left
/// operand first.
pub proof fn law_infix_operands(op: InfixOp, lhs: ExprView, rhs: ExprView, start: nat, st: PState)
    ensures
        op matches InfixOp::Binary(bin) ==> make_infix(op, lhs, rhs, start, st).0.kind == ExprKindView::Binary(
            bin,
            Box::new(lhs),
            Box::new(rhs),
        ),
        op matches InfixOp::Logic(logic) ==> make_infix(op, lhs, rhs, start, st).0.kind == ExprKindView::Logic(
            logic,
            Box::new(lhs),
            Box::new(rhs),
        ),
        !(op is Assign) ==> make_infix(op, lhs, rhs, start, st).1 == st,
{
}

/// Arguments are collected in the order written: those already parsed stay
/// first, in their order.
pub proof fn law_args_in_order(s: Seq<char>, st: PState, args: Seq<ExprView>)
    ensures
        args.len() <= args_loop(s, st, args).0.len(),
        forall|i: int| 0 <= i < args.len() ==> #[trigger] args_loop(s, st, args).0[i] == args[i],
    decreases remaining(s, st),
{
    if peek(st) == TokenType::Comma {
        lemma_bump_remaining(s, st);
        let (arg, st1) = parse_expr(s, bump(s, st));
        if remaining(s, st1) < remaining(s, st) {
            law_args_in_order(s, st1, args.push(arg));
            assert forall|i: int| 0 <= i < args.len() implies #[trigger] args_loop(s, st, args).0[i] == args[i] by {
                assert(args.push(arg)[i] == args[i]);
            }
        }
    }
}

/// Declarations are collected in the order written, in a block and in a
/// whole program: those already parsed stay first, in their order.
pub proof fn law_decls_in_order(s: Seq<char>, st: PState, decls: Seq<StmtView>)
    ensures
        decls.len() <= block_loop(s, st, decls).0.len(),
        forall|i: int| 0 <= i < decls.len() ==> #[trigger] block_loop(s, st, decls).0[i] == decls[i],
        decls.len() <= ast_loop(s, st, decls).0.len(),
        forall|i: int| 0 <= i < decls.len() ==> #[trigger] ast_loop(s, st, decls).0[i] == decls[i],
    decreases remaining(s, st),
{
    if peek(st) != TokenType::Eof {
        let (decl, st1) = parse_decl(s, st);
        if remaining(s, st1) < remaining(s, st) {
            law_decls_in_order(s, st1, decls.push(decl));
            assert forall|i: int| 0 <= i < decls.len() implies #[trigger] ast_loop(s, st, decls).0[i] == decls[i] by {
                assert(decls.push(decl)[i] == decls[i]);
            }
            assert forall|i: int| 0 <= i < decls.len() implies #[trigger] block_loop(s, st, decls).0[i] == decls[i] by {
                assert(decls.push(decl)[i] == decls[i]);
            }
        }
    }
}

} // verus!
