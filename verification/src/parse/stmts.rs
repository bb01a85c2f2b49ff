use vstd::prelude::*;

use crate::ast::{lemma_block_view, stmt_kind_view, stmt_view, stmts_view, Stmt, StmtKind, StmtKindView};
use crate::spans::BytePos;
use crate::tokens::TokenType;

use super::grammar::{
    advanced, keeps, block_loop, parse_block, parse_decl, parse_print, parse_stmt, parse_stmt_expr, peek, progressed, remaining,
};
use super::tree::{kind_respects_precedence, stmt_respects_precedence};
use super::Parser;

verus! {

impl<'src> Parser<'src> {
    /// Parses and returns a declaration [`Stmt`], after which the `Parser`
    /// leaves panic mode. A declaration always consumes a token, unless the
    /// next one is the end of file.
    pub fn parse_decl(&mut self) -> (stmt: Stmt)
        requires
            old(self).wf(),
        ensures
            final(self).wf(),
            final(self).source() == old(self).source(),
            keeps(old(self)@, final(self)@),
            (stmt_view(stmt), final(self)@) == parse_decl(old(self).source(), old(self)@),
            stmt_respects_precedence(stmt_view(stmt)),
            !final(self)@.panicking,
            remaining(old(self).source(), final(self)@) <= remaining(old(self).source(), old(self)@),
            peek(old(self)@) != TokenType::Eof ==> remaining(old(self).source(), final(self)@) < remaining(
                old(self).source(),
                old(self)@,
            ),
        decreases remaining(old(self).source(), old(self)@), 3nat,
    {
        let stmt = self.parse_stmt();
        self.synchronize();
        stmt
    }

    /// Parses and returns a [`Stmt`].
    pub fn parse_stmt(&mut self) -> (stmt: Stmt)
        requires
            old(self).wf(),
        ensures
            final(self).wf(),
            final(self).source() == old(self).source(),
            keeps(old(self)@, final(self)@),
            (stmt_view(stmt), final(self)@) == parse_stmt(old(self).source(), old(self)@),
            stmt_respects_precedence(stmt_view(stmt)),
            advanced(old(self).source(), old(self)@, final(self)@),
            progressed(old(self).source(), old(self)@, final(self)@),
        decreases remaining(old(self).source(), old(self)@), 2nat,
    {
        let start_pos = self.start_pos();
        let kind = match self.peek() {
            TokenType::OpenBrace => self.parse_stmt_block(),
            TokenType::Print => self.parse_stmt_print(),
            _ => self.parse_stmt_expr(),
        };
        self.make_stmt(kind, start_pos)
    }

    /// Parses and returns a block [`StmtKind`], from its opening brace.
    fn parse_stmt_block(&mut self) -> (kind: StmtKind)
        requires
            old(self).wf(),
            peek(old(self)@) == TokenType::OpenBrace,
        ensures
            final(self).wf(),
            final(self).source() == old(self).source(),
            keeps(old(self)@, final(self)@),
            (stmt_kind_view(kind), final(self)@) == parse_block(old(self).source(), old(self)@),
            kind_respects_precedence(stmt_kind_view(kind)),
            remaining(old(self).source(), final(self)@) < remaining(old(self).source(), old(self)@),
        decreases remaining(old(self).source(), old(self)@), 1nat,
    {
        let ghost s = self.source();
        let ghost st0 = self@;
        self.bump_assert(TokenType::OpenBrace);
        let ghost st1 = self@;
        let mut decls: Vec<Stmt> = Vec::new();
        proof {
            assert(stmts_view(decls@) =~= Seq::<crate::ast::StmtView>::empty());
        }
        loop
            invariant
                self.wf(),
                self.source() == s,
                keeps(st0, self@),
                s == old(self).source(),
                st0 == old(self)@,
                block_loop(s, self@, stmts_view(decls@)) == block_loop(s, st1, Seq::empty()),
                forall|i: int| 0 <= i < decls@.len() ==> stmt_respects_precedence(#[trigger] stmts_view(decls@)[i]),
                remaining(s, self@) <= remaining(s, st1),
                remaining(s, st1) < remaining(s, st0),
            ensures
                self.wf(),
                self.source() == s,
                keeps(st0, self@),
                (stmts_view(decls@), self@) == block_loop(s, st1, Seq::empty()),
                forall|i: int| 0 <= i < decls@.len() ==> stmt_respects_precedence(#[trigger] stmts_view(decls@)[i]),
                remaining(s, self@) <= remaining(s, st1),
                remaining(s, st1) < remaining(s, st0),
            decreases remaining(s, self@),
        {
            let next = self.peek();
            if next == TokenType::Eof || next == TokenType::CloseBrace {
                break;
            }
            let decl = self.parse_decl();
            let ghost old_decls = decls@;
            decls.push(decl);
            proof {
                assert(stmts_view(decls@) =~= stmts_view(old_decls).push(stmt_view(decl)));
            }
        }
        self.expect(TokenType::CloseBrace);
        proof {
            lemma_block_view(decls);
        }
        StmtKind::Block(decls)
    }

    /// Parses and returns a print [`StmtKind`], from its keyword.
    fn parse_stmt_print(&mut self) -> (kind: StmtKind)
        requires
            old(self).wf(),
            peek(old(self)@) == TokenType::Print,
        ensures
            final(self).wf(),
            final(self).source() == old(self).source(),
            keeps(old(self)@, final(self)@),
            (stmt_kind_view(kind), final(self)@) == parse_print(old(self).source(), old(self)@),
            kind_respects_precedence(stmt_kind_view(kind)),
            remaining(old(self).source(), final(self)@) < remaining(old(self).source(), old(self)@),
    {
        self.bump_assert(TokenType::Print);
        let value = self.parse_expr();
        self.expect(TokenType::Semi);
        StmtKind::Print(Box::new(value))
    }

    /// Parses and returns an expression [`StmtKind`].
    fn parse_stmt_expr(&mut self) -> (kind: StmtKind)
        requires
            old(self).wf(),
        ensures
            final(self).wf(),
            final(self).source() == old(self).source(),
            keeps(old(self)@, final(self)@),
            (stmt_kind_view(kind), final(self)@) == parse_stmt_expr(old(self).source(), old(self)@),
            kind_respects_precedence(stmt_kind_view(kind)),
            advanced(old(self).source(), old(self)@, final(self)@),
            progressed(old(self).source(), old(self)@, final(self)@),
    {
        let expr = self.parse_expr();
        self.expect(TokenType::Semi);
        StmtKind::Expr(Box::new(expr))
    }

    /// Returns a new [`Stmt`] from a [`StmtKind`] and a start [`BytePos`].
    fn make_stmt(&self, kind: StmtKind, start_pos: BytePos) -> (stmt: Stmt)
        ensures
            stmt.kind == kind,
            stmt.span == super::grammar::span_from(self@, start_pos@),
            stmt_view(stmt).kind == stmt_kind_view(kind),
    {
        let span = self.span_from(start_pos);
        Stmt { kind, span }
    }
}

} // verus!
