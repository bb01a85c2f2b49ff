use vstd::prelude::*;

use crate::ast::{exprs_view, expr_view, lemma_call_view, Expr, ExprKind, Ident, UnOp};
use crate::diagnostics::Diag;
use crate::spans::BytePos;
use crate::symbols::Symbol;
use crate::tokens::{TokenKind, TokenType};

use super::grammar::{
    advanced, keeps, args_loop, call_loop, infix_loop, lemma_bump_remaining, make_assign, make_expr, make_infix, parse_args,
    parse_call, parse_expr, parse_infix, parse_primary, parse_unary, peek, progressed, remaining,
};
use super::infix::{law_precedence_and_associativity, Associativity, InfixOp};
use super::tree::{binds_at_least, binds_before, infix_precedence, respects_precedence, stops_below};
use super::Parser;

verus! {

impl<'src> Parser<'src> {
    /// Parses and returns an [`Expr`], whose infix operations respect
    /// precedence and associativity.
    pub fn parse_expr(&mut self) -> (expr: Expr)
        requires
            old(self).wf(),
        ensures
            final(self).wf(),
            final(self).source() == old(self).source(),
            keeps(old(self)@, final(self)@),
            (expr_view(expr), final(self)@) == parse_expr(old(self).source(), old(self)@),
            respects_precedence(expr_view(expr)),
            advanced(old(self).source(), old(self)@, final(self)@),
            progressed(old(self).source(), old(self)@, final(self)@),
            old(self)@.panicking ==> final(self)@.panicking,
        decreases remaining(old(self).source(), old(self)@), 10nat,
    {
        self.parse_expr_infix(0)
    }

    /// Parses and returns an infix [`Expr`] whose operators bind at least as
    /// tightly as `min_precedence`.
    fn parse_expr_infix(&mut self, min_precedence: u8) -> (expr: Expr)
        requires
            old(self).wf(),
        ensures
            final(self).wf(),
            final(self).source() == old(self).source(),
            keeps(old(self)@, final(self)@),
            (expr_view(expr), final(self)@) == parse_infix(old(self).source(), old(self)@, min_precedence),
            respects_precedence(expr_view(expr)),
            binds_at_least(expr_view(expr), min_precedence),
            stops_below(final(self)@, min_precedence),
            advanced(old(self).source(), old(self)@, final(self)@),
            progressed(old(self).source(), old(self)@, final(self)@),
            old(self)@.panicking ==> final(self)@.panicking,
        decreases remaining(old(self).source(), old(self)@), 9nat,
    {
        let ghost s = self.source();
        let ghost st0 = self@;
        let start_pos = self.start_pos();
        let mut lhs = self.parse_expr_unary();
        loop
            invariant
                self.wf(),
                self.source() == s,
                keeps(st0, self@),
                s == old(self).source(),
                st0 == old(self)@,
                start_pos@ == super::grammar::start_pos(st0),
                infix_loop(s, self@, expr_view(lhs), start_pos@, min_precedence) == parse_infix(s, st0, min_precedence),
                respects_precedence(expr_view(lhs)),
                binds_at_least(expr_view(lhs), min_precedence),
                binds_before(expr_view(lhs), self@),
                advanced(s, st0, self@),
                progressed(s, st0, self@),
                st0.panicking ==> self@.panicking,
            ensures
                self.wf(),
                self.source() == s,
                keeps(st0, self@),
                (expr_view(lhs), self@) == parse_infix(s, st0, min_precedence),
                respects_precedence(expr_view(lhs)),
                binds_at_least(expr_view(lhs), min_precedence),
                stops_below(self@, min_precedence),
                advanced(s, st0, self@),
                progressed(s, st0, self@),
                st0.panicking ==> self@.panicking,
            decreases remaining(s, self@),
        {
            let op = match InfixOp::from_token_type(self.peek()) {
                Some(op) => op,
                None => {
                    break;
                },
            };
            let precedence = op.precedence();
            if precedence < min_precedence {
                break;
            }
            let next_min_precedence = match op.associativity() {
                Associativity::Left => precedence + 1,
                Associativity::Right => precedence,
            };
            let ghost st = self@;
            proof {
                lemma_bump_remaining(s, st);
            }
            self.bump();
            let rhs = self.parse_expr_infix(next_min_precedence);
            proof {
                law_precedence_and_associativity(op);
            }
            lhs = self.make_infix_expr(op, lhs, rhs, start_pos);
        }
        lhs
    }

    /// Parses and returns a unary [`Expr`].
    fn parse_expr_unary(&mut self) -> (expr: Expr)
        requires
            old(self).wf(),
        ensures
            final(self).wf(),
            final(self).source() == old(self).source(),
            keeps(old(self)@, final(self)@),
            (expr_view(expr), final(self)@) == parse_unary(old(self).source(), old(self)@),
            respects_precedence(expr_view(expr)),
            infix_precedence(expr_view(expr)) is None,
            advanced(old(self).source(), old(self)@, final(self)@),
            progressed(old(self).source(), old(self)@, final(self)@),
            old(self)@.panicking ==> final(self)@.panicking,
        decreases remaining(old(self).source(), old(self)@), 7nat,
    {
        let ghost s = self.source();
        let start_pos = self.start_pos();
        let op = match self.peek() {
            TokenType::Minus => UnOp::Minus,
            TokenType::Bang => UnOp::Not,
            _ => {
                let ghost st = self@;
                assert(peek(st) != TokenType::Minus && peek(st) != TokenType::Bang);
                assert(parse_unary(s, st) == parse_call(s, st));
                return self.parse_expr_call();
            },
        };
        proof {
            lemma_bump_remaining(s, self@);
        }
        self.bump();
        let rhs = self.parse_expr_unary();
        self.make_expr(ExprKind::Unary(op, Box::new(rhs)), start_pos)
    }

    /// Parses and returns a call [`Expr`].
    fn parse_expr_call(&mut self) -> (expr: Expr)
        requires
            old(self).wf(),
        ensures
            final(self).wf(),
            final(self).source() == old(self).source(),
            keeps(old(self)@, final(self)@),
            (expr_view(expr), final(self)@) == parse_call(old(self).source(), old(self)@),
            respects_precedence(expr_view(expr)),
            infix_precedence(expr_view(expr)) is None,
            advanced(old(self).source(), old(self)@, final(self)@),
            progressed(old(self).source(), old(self)@, final(self)@),
            old(self)@.panicking ==> final(self)@.panicking,
        decreases remaining(old(self).source(), old(self)@), 6nat,
    {
        let ghost s = self.source();
        let ghost st0 = self@;
        let start_pos = self.start_pos();
        let mut lhs = self.parse_expr_primary();
        loop
            invariant
                self.wf(),
                self.source() == s,
                keeps(st0, self@),
                s == old(self).source(),
                st0 == old(self)@,
                start_pos@ == super::grammar::start_pos(st0),
                call_loop(s, self@, expr_view(lhs), start_pos@) == parse_call(s, st0),
                respects_precedence(expr_view(lhs)),
                infix_precedence(expr_view(lhs)) is None,
                advanced(s, st0, self@),
                progressed(s, st0, self@),
                st0.panicking ==> self@.panicking,
            ensures
                self.wf(),
                self.source() == s,
                keeps(st0, self@),
                (expr_view(lhs), self@) == parse_call(s, st0),
                respects_precedence(expr_view(lhs)),
                infix_precedence(expr_view(lhs)) is None,
                advanced(s, st0, self@),
                progressed(s, st0, self@),
                st0.panicking ==> self@.panicking,
            decreases remaining(s, self@),
        {
            let ghost st = self@;
            let ghost lhs_view = expr_view(lhs);
            let kind = match self.peek() {
                TokenType::OpenParen => {
                    let args = self.parse_args();
                    ExprKind::Call(Box::new(lhs), args)
                },
                TokenType::Dot => {
                    proof {
                        lemma_bump_remaining(s, self@);
                    }
                    self.bump();
                    let ident = self.parse_ident();
                    ExprKind::Property(Box::new(lhs), ident)
                },
                _ => break,
            };
            lhs = self.make_expr(kind, start_pos);
            proof {
                if peek(st) == TokenType::OpenParen {
                    lemma_call_view(lhs.kind->Call_0, lhs.kind->Call_1, lhs.span);
                }
            }
        }
        lhs
    }

    /// Parses and returns a primary [`Expr`].
    fn parse_expr_primary(&mut self) -> (expr: Expr)
        requires
            old(self).wf(),
        ensures
            final(self).wf(),
            final(self).source() == old(self).source(),
            keeps(old(self)@, final(self)@),
            (expr_view(expr), final(self)@) == parse_primary(old(self).source(), old(self)@),
            respects_precedence(expr_view(expr)),
            infix_precedence(expr_view(expr)) is None,
            advanced(old(self).source(), old(self)@, final(self)@),
            progressed(old(self).source(), old(self)@, final(self)@),
            old(self)@.panicking ==> final(self)@.panicking,
        decreases remaining(old(self).source(), old(self)@), 2nat,
    {
        let ghost s = self.source();
        let start_pos = self.start_pos();
        proof {
            if peek(self@) != TokenType::Eof {
                lemma_bump_remaining(s, self@);
            }
        }
        let kind = match self.next_token.kind() {
            TokenKind::Literal(literal) => {
                self.bump();
                ExprKind::Literal(literal)
            },
            TokenKind::Ident(name) => {
                self.bump();
                ExprKind::Variable(name)
            },
            TokenKind::OpenParen => {
                self.bump();
                let expr = self.parse_expr();
                self.expect(TokenType::CloseParen);
                ExprKind::Paren(Box::new(expr))
            },
            TokenKind::Super => {
                self.bump();
                self.expect(TokenType::Dot);
                let ident = self.parse_ident();
                ExprKind::Super(ident)
            },
            TokenKind::This => {
                self.bump();
                ExprKind::This
            },
            kind => {
                let span = self.next_token.span();
                self.report(Diag::ExpectedExpr(kind), span);
                ExprKind::Variable(Symbol::error())
            },
        };
        self.make_expr(kind, start_pos)
    }

    /// Parses and returns the argument [`Expr`]s of a call, from its opening
    /// parenthesis.
    fn parse_args(&mut self) -> (args: Vec<Expr>)
        requires
            old(self).wf(),
            peek(old(self)@) == TokenType::OpenParen,
        ensures
            final(self).wf(),
            final(self).source() == old(self).source(),
            keeps(old(self)@, final(self)@),
            (exprs_view(args@), final(self)@) == parse_args(old(self).source(), old(self)@),
            forall|i: int| 0 <= i < args@.len() ==> respects_precedence(#[trigger] exprs_view(args@)[i]),
            remaining(old(self).source(), final(self)@) < remaining(old(self).source(), old(self)@),
            old(self)@.panicking ==> final(self)@.panicking,
        decreases remaining(old(self).source(), old(self)@), 4nat,
    {
        let ghost s = self.source();
        let ghost st0 = self@;
        proof {
            lemma_bump_remaining(s, self@);
        }
        self.bump_assert(TokenType::OpenParen);
        let ghost st1 = self@;
        if self.eat(TokenType::CloseParen) {
            let args = Vec::new();
            assert(exprs_view(args@) =~= Seq::<crate::ast::ExprView>::empty());
            return args;
        }
        let mut args = Vec::new();
        let first = self.parse_expr();
        args.push(first);
        proof {
            assert(exprs_view(args@) =~= seq![expr_view(first)]);
        }
        let ghost st3 = self@;
        loop
            invariant
                self.wf(),
                self.source() == s,
                keeps(st0, self@),
                s == old(self).source(),
                st0 == old(self)@,
                args_loop(s, self@, exprs_view(args@)) == args_loop(s, st3, seq![expr_view(first)]),
                forall|i: int| 0 <= i < args@.len() ==> respects_precedence(#[trigger] exprs_view(args@)[i]),
                remaining(s, self@) <= remaining(s, st3),
                remaining(s, st3) <= remaining(s, st1),
                remaining(s, st1) < remaining(s, st0),
                st0.panicking ==> self@.panicking,
            ensures
                self.wf(),
                self.source() == s,
                keeps(st0, self@),
                (exprs_view(args@), self@) == args_loop(s, st3, seq![expr_view(first)]),
                forall|i: int| 0 <= i < args@.len() ==> respects_precedence(#[trigger] exprs_view(args@)[i]),
                remaining(s, self@) <= remaining(s, st3),
                remaining(s, st3) <= remaining(s, st1),
                remaining(s, st1) < remaining(s, st0),
                st0.panicking ==> self@.panicking,
            decreases remaining(s, self@),
        {
            let ghost st = self@;
            if !self.eat(TokenType::Comma) {
                break;
            }
            let arg = self.parse_expr();
            let ghost old_args = args@;
            args.push(arg);
            proof {
                assert(exprs_view(args@) =~= exprs_view(old_args).push(expr_view(arg)));
            }
        }
        self.expect(TokenType::CloseParen);
        args
    }

    /// Returns a new infix [`Expr`] from an [`InfixOp`], operand [`Expr`]s, and
    /// a start [`BytePos`].
    fn make_infix_expr(&mut self, op: InfixOp, lhs: Expr, rhs: Expr, start_pos: BytePos) -> (expr: Expr)
        requires
            old(self).wf(),
        ensures
            final(self).wf(),
            final(self).source() == old(self).source(),
            keeps(old(self)@, final(self)@),
            (expr_view(expr), final(self)@) == make_infix(op, expr_view(lhs), expr_view(rhs), start_pos@, old(self)@),
            respects_precedence(expr_view(lhs)) && respects_precedence(expr_view(rhs)) && binds_at_least(
                expr_view(lhs),
                op.spec_precedence(),
            ) && binds_at_least(expr_view(rhs), op.spec_rhs_precedence()) ==> respects_precedence(expr_view(expr)),
            infix_precedence(expr_view(expr)) is None || infix_precedence(expr_view(expr)) == Some(op.spec_precedence()),
            final(self)@.pos == old(self)@.pos,
            final(self)@.next == old(self)@.next,
            old(self)@.panicking ==> final(self)@.panicking,
    {
        let kind = match op {
            InfixOp::Assign => return self.make_assign_expr(lhs, rhs, start_pos),
            InfixOp::Binary(op) => ExprKind::Binary(op, Box::new(lhs), Box::new(rhs)),
            InfixOp::Logic(op) => ExprKind::Logic(op, Box::new(lhs), Box::new(rhs)),
        };
        self.make_expr(kind, start_pos)
    }

    /// Returns a new assignment [`Expr`] from operand [`Expr`]s and a start
    /// [`BytePos`]. A target other than a variable or a property is reported.
    fn make_assign_expr(&mut self, lhs: Expr, rhs: Expr, start_pos: BytePos) -> (expr: Expr)
        requires
            old(self).wf(),
        ensures
            final(self).wf(),
            final(self).source() == old(self).source(),
            keeps(old(self)@, final(self)@),
            (expr_view(expr), final(self)@) == make_assign(expr_view(lhs), expr_view(rhs), start_pos@, old(self)@),
            respects_precedence(expr_view(lhs)) && respects_precedence(expr_view(rhs)) ==> respects_precedence(
                expr_view(expr),
            ),
            infix_precedence(expr_view(expr)) is None || infix_precedence(expr_view(expr)) == Some(
                InfixOp::Assign.spec_precedence(),
            ),
            final(self)@.pos == old(self)@.pos,
            final(self)@.next == old(self)@.next,
            old(self)@.panicking ==> final(self)@.panicking,
    {
        let lhs_span = lhs.span;
        let kind = match lhs.kind {
            ExprKind::Variable(name) => ExprKind::AssignVar(Ident { symbol: name, span: lhs_span }, Box::new(rhs)),
            ExprKind::Property(instance, name) => ExprKind::AssignField(instance, name, Box::new(rhs)),
            _ => {
                self.report_recovered(Diag::InvalidAssign, lhs_span);
                ExprKind::Variable(Symbol::error())
            },
        };
        self.make_expr(kind, start_pos)
    }

    /// Returns a new [`Expr`] from an [`ExprKind`] and a start [`BytePos`].
    fn make_expr(&self, kind: ExprKind, start_pos: BytePos) -> (expr: Expr)
        ensures
            expr.kind == kind,
            expr.span == super::grammar::span_from(self@, start_pos@),
    {
        let span = self.span_from(start_pos);
        Expr { kind, span }
    }
}

} // verus!
