use vstd::prelude::*;

use crate::spans::Span;
use crate::symbols::Symbol;
use crate::tokens::Literal;

verus! {

/// An abstract syntax tree: a sequence of declarations.
#[derive(Debug)]
pub struct Ast(pub Vec<Stmt>);

/// A statement.
#[derive(Debug)]
pub struct Stmt {
    /// The [`StmtKind`].
    pub kind: StmtKind,
    /// The [`Span`].
    pub span: Span,
}

/// A [`Stmt`]'s kind.
#[derive(Debug)]
pub enum StmtKind {
    /// A block.
    Block(Vec<Stmt>),
    /// A conditional branch.
    If(Box<Expr>, Box<Stmt>, Option<Box<Stmt>>),
    /// A print.
    Print(Box<Expr>),
    /// An [`Expr`].
    Expr(Box<Expr>),
}

/// An expression.
#[derive(Debug)]
pub struct Expr {
    /// The [`ExprKind`].
    pub kind: ExprKind,
    /// The [`Span`].
    pub span: Span,
}

/// An [`Expr`]'s kind.
#[derive(Debug)]
pub enum ExprKind {
    /// A variable assignment.
    AssignVar(Ident, Box<Expr>),
    /// A field assignment.
    AssignField(Box<Expr>, Ident, Box<Expr>),
    /// A [`Literal`].
    Literal(Literal),
    /// A variable.
    Variable(Symbol),
    /// A property.
    Property(Box<Expr>, Ident),
    /// An instance.
    This,
    /// A superclass method.
    Super(Ident),
    /// A parenthesized [`Expr`].
    Paren(Box<Expr>),
    /// A unary operation.
    Unary(UnOp, Box<Expr>),
    /// A binary operation.
    Binary(BinOp, Box<Expr>, Box<Expr>),
    /// A logical operation.
    Logic(LogicOp, Box<Expr>, Box<Expr>),
    /// A function or class call.
    Call(Box<Expr>, Vec<Expr>),
}

/// A unary operator.
#[derive(Clone, Copy, Debug, PartialEq, Eq, Structural)]
pub enum UnOp {
    /// An arithmetic negation.
    Minus,
    /// A logical negation.
    Not,
}

/// A binary operator.
#[derive(Clone, Copy, Debug, PartialEq, Eq, Structural)]
pub enum BinOp {
    /// An addition or string concatenation.
    Add,
    /// A subtraction.
    Subtract,
    /// A multiplication.
    Multiply,
    /// A division.
    Divide,
    /// An equality comparison.
    Equal,
    /// An inequality comparison.
    NotEqual,
    /// A greater than comparison.
    Greater,
    /// A greater than or equal to comparison.
    GreaterEqual,
    /// A less than comparison.
    Less,
    /// A less than or equal to comparison.
    LessEqual,
}

/// A logical operator.
#[derive(Clone, Copy, Debug, PartialEq, Eq, Structural)]
pub enum LogicOp {
    /// A logical and.
    And,
    /// A logical or.
    Or,
}

/// An identifier [`Symbol`] with a [`Span`].
#[derive(Clone, Copy, Debug, PartialEq, Eq, Structural)]
pub struct Ident {
    /// The [`Symbol`].
    pub symbol: Symbol,
    /// The [`Span`].
    pub span: Span,
}

/// An [`Expr`] as a mathematical tree, with sequences for lists.
pub struct ExprView {
    /// The kind.
    pub kind: ExprKindView,
    /// The [`Span`].
    pub span: Span,
}

/// An [`ExprKind`] as a mathematical tree.
pub enum ExprKindView {
    /// A variable assignment.
    AssignVar(Ident, Box<ExprView>),
    /// A field assignment.
    AssignField(Box<ExprView>, Ident, Box<ExprView>),
    /// A [`Literal`].
    Literal(Literal),
    /// A variable.
    Variable(Symbol),
    /// A property.
    Property(Box<ExprView>, Ident),
    /// An instance.
    This,
    /// A superclass method.
    Super(Ident),
    /// A parenthesized expression.
    Paren(Box<ExprView>),
    /// A unary operation.
    Unary(UnOp, Box<ExprView>),
    /// A binary operation.
    Binary(BinOp, Box<ExprView>, Box<ExprView>),
    /// A logical operation.
    Logic(LogicOp, Box<ExprView>, Box<ExprView>),
    /// A function or class call.
    Call(Box<ExprView>, Seq<ExprView>),
}

/// A [`Stmt`] as a mathematical tree, with sequences for lists.
pub struct StmtView {
    /// The kind.
    pub kind: StmtKindView,
    /// The [`Span`].
    pub span: Span,
}

/// A [`StmtKind`] as a mathematical tree.
pub enum StmtKindView {
    /// A block.
    Block(Seq<StmtView>),
    /// A conditional branch.
    If(Box<ExprView>, Box<StmtView>, Option<Box<StmtView>>),
    /// A print.
    Print(Box<ExprView>),
    /// An expression.
    Expr(Box<ExprView>),
}

/// The mathematical tree of an [`Expr`].
pub open spec fn expr_view(e: Expr) -> ExprView
    decreases e,
{
    let kind = match e.kind {
        ExprKind::AssignVar(ident, value) => ExprKindView::AssignVar(ident, Box::new(expr_view(*value))),
        ExprKind::AssignField(instance, name, value) => ExprKindView::AssignField(
            Box::new(expr_view(*instance)),
            name,
            Box::new(expr_view(*value)),
        ),
        ExprKind::Literal(literal) => ExprKindView::Literal(literal),
        ExprKind::Variable(symbol) => ExprKindView::Variable(symbol),
        ExprKind::Property(instance, name) => ExprKindView::Property(Box::new(expr_view(*instance)), name),
        ExprKind::This => ExprKindView::This,
        ExprKind::Super(ident) => ExprKindView::Super(ident),
        ExprKind::Paren(inner) => ExprKindView::Paren(Box::new(expr_view(*inner))),
        ExprKind::Unary(op, operand) => ExprKindView::Unary(op, Box::new(expr_view(*operand))),
        ExprKind::Binary(op, lhs, rhs) => ExprKindView::Binary(op, Box::new(expr_view(*lhs)), Box::new(expr_view(*rhs))),
        ExprKind::Logic(op, lhs, rhs) => ExprKindView::Logic(op, Box::new(expr_view(*lhs)), Box::new(expr_view(*rhs))),
        ExprKind::Call(callee, args) => ExprKindView::Call(
            Box::new(expr_view(*callee)),
            Seq::new(args@.len(), |i: int| if 0 <= i < args@.len() { expr_view(args@[i]) } else { expr_view(*callee) }),
        ),
    };
    ExprView { kind, span: e.span }
}

/// The mathematical trees of a sequence of [`Expr`]s.
pub open spec fn exprs_view(exprs: Seq<Expr>) -> Seq<ExprView> {
    Seq::new(exprs.len(), |i: int| expr_view(exprs[i]))
}

/// The mathematical tree of a [`Stmt`].
pub open spec fn stmt_view(s: Stmt) -> StmtView
    decreases s,
{
    StmtView { kind: stmt_kind_view(s.kind), span: s.span }
}

/// The mathematical tree of a [`StmtKind`].
pub open spec fn stmt_kind_view(kind: StmtKind) -> StmtKindView
    decreases kind,
{
    match kind {
        StmtKind::Block(decls) => StmtKindView::Block(
            Seq::new(decls@.len(), |i: int| if 0 <= i < decls@.len() { stmt_view(decls@[i]) } else { StmtView { kind: StmtKindView::Block(Seq::empty()), span: Span::from_offsets(0, 0) } }),
        ),
        StmtKind::If(cond, then_stmt, else_stmt) => StmtKindView::If(
            Box::new(expr_view(*cond)),
            Box::new(stmt_view(*then_stmt)),
            match else_stmt {
                Some(else_stmt) => Some(Box::new(stmt_view(*else_stmt))),
                None => None,
            },
        ),
        StmtKind::Print(value) => StmtKindView::Print(Box::new(expr_view(*value))),
        StmtKind::Expr(expr) => StmtKindView::Expr(Box::new(expr_view(*expr))),
    }
}

/// The mathematical trees of a sequence of [`Stmt`]s.
pub open spec fn stmts_view(stmts: Seq<Stmt>) -> Seq<StmtView> {
    Seq::new(stmts.len(), |i: int| stmt_view(stmts[i]))
}

impl View for Ast {
    type V = Seq<StmtView>;

    open spec fn view(&self) -> Seq<StmtView> {
        stmts_view(self.0@)
    }
}

/// The tree of a call is the call of the trees of its callee and arguments.
pub proof fn lemma_call_view(callee: Box<Expr>, args: Vec<Expr>, span: Span)
    ensures
        expr_view(Expr { kind: ExprKind::Call(callee, args), span }) == (ExprView {
            kind: ExprKindView::Call(Box::new(expr_view(*callee)), exprs_view(args@)),
            span,
        }),
{
    let e = Expr { kind: ExprKind::Call(callee, args), span };
    assert(expr_view(e).kind->Call_1 =~= exprs_view(args@));
}

/// The tree of a block is the block of the trees of its declarations.
pub proof fn lemma_block_view(decls: Vec<Stmt>)
    ensures
        stmt_kind_view(StmtKind::Block(decls)) == StmtKindView::Block(stmts_view(decls@)),
{
    assert(stmt_kind_view(StmtKind::Block(decls))->Block_0 =~= stmts_view(decls@));
}

} // verus!
