//! The shape of parsed trees: every infix operation respects the precedence
//! and associativity of its operator.
use vstd::prelude::*;

use crate::ast::{ExprKindView, ExprView, StmtKindView, StmtView};

use super::grammar::peek;
use super::grammar::PState;
use super::infix::InfixOp;

verus! {

/// The precedence of an expression's outermost infix operator, or `None` if
/// the expression is not an infix operation.
pub open spec fn infix_precedence(e: ExprView) -> Option<u8> {
    match e.kind {
        ExprKindView::Binary(op, _, _) => Some(InfixOp::Binary(op).spec_precedence()),
        ExprKindView::Logic(op, _, _) => Some(InfixOp::Logic(op).spec_precedence()),
        ExprKindView::AssignVar(_, _) => Some(InfixOp::Assign.spec_precedence()),
        ExprKindView::AssignField(_, _, _) => Some(InfixOp::Assign.spec_precedence()),
        _ => None,
    }
}

/// Whether an expression binds at least as tightly as a precedence: it is
/// not an infix operation, or its operator's precedence is at least that.
pub open spec fn binds_at_least(e: ExprView, min: u8) -> bool {
    match infix_precedence(e) {
        Some(p) => p >= min,
        None => true,
    }
}

/// Whether every infix operation within an expression respects precedence
/// and associativity: its left operand binds at least as tightly as its
/// operator, and its right operand at least as tightly as the operator's
/// right-operand precedence, which is one level tighter for the
/// left-associative operators. So `a - b - c` is `(a - b) - c`,
/// `a + b * c` is `a + (b * c)`, and `a = b = c` is `a = (b = c)`.
pub open spec fn respects_precedence(e: ExprView) -> bool
    decreases e,
{
    match e.kind {
        ExprKindView::Binary(op, lhs, rhs) => {
            &&& binds_at_least(*lhs, InfixOp::Binary(op).spec_precedence())
            &&& binds_at_least(*rhs, InfixOp::Binary(op).spec_rhs_precedence())
            &&& respects_precedence(*lhs)
            &&& respects_precedence(*rhs)
        },
        ExprKindView::Logic(op, lhs, rhs) => {
            &&& binds_at_least(*lhs, InfixOp::Logic(op).spec_precedence())
            &&& binds_at_least(*rhs, InfixOp::Logic(op).spec_rhs_precedence())
            &&& respects_precedence(*lhs)
            &&& respects_precedence(*rhs)
        },
        ExprKindView::AssignVar(_, value) => respects_precedence(*value),
        ExprKindView::AssignField(instance, _, value) => respects_precedence(*instance) && respects_precedence(*value),
        ExprKindView::Property(instance, _) => respects_precedence(*instance),
        ExprKindView::Paren(inner) => respects_precedence(*inner),
        ExprKindView::Unary(_, operand) => respects_precedence(*operand),
        ExprKindView::Call(callee, args) => {
            &&& respects_precedence(*callee)
            &&& forall|i: int| 0 <= i < args.len() ==> respects_precedence(#[trigger] args[i])
        },
        _ => true,
    }
}

/// Whether every expression within a statement respects precedence and
/// associativity.
pub open spec fn stmt_respects_precedence(stmt: StmtView) -> bool
    decreases stmt, 1nat,
{
    kind_respects_precedence(stmt.kind)
}

/// Whether every expression within a statement of a kind respects
/// precedence and associativity.
pub open spec fn kind_respects_precedence(kind: StmtKindView) -> bool
    decreases kind, 0nat,
{
    match kind {
        StmtKindView::Block(decls) => forall|i: int| 0 <= i < decls.len() ==> stmt_respects_precedence(#[trigger] decls[i]),
        StmtKindView::If(cond, then_stmt, else_stmt) => {
            &&& respects_precedence(*cond)
            &&& stmt_respects_precedence(*then_stmt)
            &&& match else_stmt {
                Some(else_stmt) => stmt_respects_precedence(*else_stmt),
                None => true,
            }
        },
        StmtKindView::Print(value) => respects_precedence(*value),
        StmtKindView::Expr(expr) => respects_precedence(*expr),
    }
}

/// Whether the next token is no infix operator that binds at least as
/// tightly as `min`: where an infix parse with that bound stops.
pub open spec fn stops_below(st: PState, min: u8) -> bool {
    match InfixOp::spec_from_token_type(peek(st)) {
        Some(op) => op.spec_precedence() < min,
        None => true,
    }
}

/// Whether an expression binds at least as tightly as the infix operator
/// that comes next, if one does.
pub open spec fn binds_before(e: ExprView, st: PState) -> bool {
    match InfixOp::spec_from_token_type(peek(st)) {
        Some(op) => binds_at_least(e, op.spec_precedence()),
        None => true,
    }
}

} // verus!
