//! The tree structure of an [`Ast`] for dumping it: its nodes, their spans and
//! children, and the names of statements and operators.
use vstd::prelude::*;

use crate::ast::{Ast, BinOp, Expr, ExprKind, Ident, LogicOp, Stmt, StmtKind, UnOp};
use crate::spans::Span;

verus! {

/// A reference to an [`Ast`] node.
#[derive(Clone, Copy, Debug)]
pub enum Node<'ast> {
    /// An [`Ast`].
    Ast(&'ast Ast),
    /// A [`Stmt`].
    Stmt(&'ast Stmt),
    /// An [`Expr`].
    Expr(&'ast Expr),
    /// An [`Ident`].
    Ident(&'ast Ident),
}

/// The nodes of a sequence of statements.
pub open spec fn stmt_nodes<'ast>(stmts: Seq<Stmt>) -> Seq<Node<'ast>> {
    Seq::new(stmts.len(), |i: int| Node::Stmt(&stmts[i]))
}

/// A [`Stmt`]'s child nodes, in order.
pub open spec fn spec_stmt_children<'ast>(stmt: Stmt) -> Seq<Node<'ast>> {
    match stmt.kind {
        StmtKind::Block(decls) => stmt_nodes(decls@),
        StmtKind::If(cond, then_stmt, Some(else_stmt)) => seq![
            Node::Expr(&*cond),
            Node::Stmt(&*then_stmt),
            Node::Stmt(&*else_stmt),
        ],
        StmtKind::If(cond, body, None) => seq![Node::Expr(&*cond), Node::Stmt(&*body)],
        StmtKind::Print(expr) => seq![Node::Expr(&*expr)],
        StmtKind::Expr(expr) => seq![Node::Expr(&*expr)],
    }
}

/// An [`Expr`]'s child nodes, in order.
pub open spec fn spec_expr_children<'ast>(expr: Expr) -> Seq<Node<'ast>> {
    match expr.kind {
        ExprKind::AssignVar(ident, value) => seq![Node::Ident(&ident), Node::Expr(&*value)],
        ExprKind::AssignField(instance, name, value) => seq![
            Node::Expr(&*instance),
            Node::Ident(&name),
            Node::Expr(&*value),
        ],
        ExprKind::Literal(_) | ExprKind::Variable(_) | ExprKind::This => Seq::empty(),
        ExprKind::Property(instance, ident) => seq![Node::Expr(&*instance), Node::Ident(&ident)],
        ExprKind::Super(ident) => seq![Node::Ident(&ident)],
        ExprKind::Paren(inner) => seq![Node::Expr(&*inner)],
        ExprKind::Unary(_, operand) => seq![Node::Expr(&*operand)],
        ExprKind::Binary(_, lhs, rhs) => seq![Node::Expr(&*lhs), Node::Expr(&*rhs)],
        ExprKind::Logic(_, lhs, rhs) => seq![Node::Expr(&*lhs), Node::Expr(&*rhs)],
        ExprKind::Call(callee, args) => seq![Node::Expr(&*callee)] + Seq::new(
            args@.len(),
            |i: int| Node::Expr(&args@[i]),
        ),
    }
}

impl<'ast> Node<'ast> {
    /// The `Node`'s [`Span`], if it has one.
    pub open spec fn spec_span(self) -> Option<Span> {
        match self {
            Node::Ast(_) => None,
            Node::Stmt(stmt) => Some(stmt.span),
            Node::Expr(expr) => Some(expr.span),
            Node::Ident(ident) => Some(ident.span),
        }
    }

    /// Returns the `Node`'s [`Span`]. This function returns [`None`] if the
    /// `Node` has no [`Span`].
    pub fn span(self) -> (span: Option<Span>)
        ensures
            span == self.spec_span(),
    {
        match self {
            Node::Ast(_) => None,
            Node::Stmt(stmt) => Some(stmt.span),
            Node::Expr(expr) => Some(expr.span),
            Node::Ident(ident) => Some(ident.span),
        }
    }

    /// The `Node`'s child nodes, in order.
    pub open spec fn spec_children(self) -> Seq<Node<'ast>> {
        match self {
            Node::Ast(ast) => stmt_nodes(ast.0@),
            Node::Stmt(stmt) => spec_stmt_children(*stmt),
            Node::Expr(expr) => spec_expr_children(*expr),
            Node::Ident(_) => Seq::empty(),
        }
    }

    /// Returns the `Node`'s child `Node`s.
    pub fn children(self) -> (children: Vec<Node<'ast>>)
        ensures
            children@ == self.spec_children(),
    {
        match self {
            Node::Ast(ast) => stmts_nodes(&ast.0),
            Node::Stmt(stmt) => stmt_children(stmt),
            Node::Expr(expr) => expr_children(expr),
            Node::Ident(_) => Vec::new(),
        }
    }
}

/// Returns the nodes of a sequence of statements.
fn stmts_nodes<'ast>(stmts: &'ast Vec<Stmt>) -> (nodes: Vec<Node<'ast>>)
    ensures
        nodes@ == stmt_nodes::<'ast>(stmts@),
{
    let mut nodes = Vec::new();
    let mut i: usize = 0;
    while i < stmts.len()
        invariant
            i <= stmts@.len(),
            nodes@ == stmt_nodes::<'ast>(stmts@.take(i as int)),
        decreases stmts@.len() - i,
    {
        nodes.push(Node::Stmt(&stmts[i]));
        i = i + 1;
        assert(nodes@ =~= stmt_nodes::<'ast>(stmts@.take(i as int)));
    }
    assert(stmts@.take(i as int) =~= stmts@);
    nodes
}

/// Returns a [`Stmt`]'s child [`Node`]s.
pub fn stmt_children(stmt: &Stmt) -> (children: Vec<Node<'_>>)
    ensures
        children@ == spec_stmt_children(*stmt),
{
    match &stmt.kind {
        StmtKind::Block(decls) => stmts_nodes(decls),
        StmtKind::If(cond, then_stmt, Some(else_stmt)) => {
            let mut children = Vec::new();
            children.push(Node::Expr(cond));
            children.push(Node::Stmt(then_stmt));
            children.push(Node::Stmt(else_stmt));
            assert(children@ =~= spec_stmt_children(*stmt));
            children
        },
        StmtKind::If(cond, body, None) => {
            let mut children = Vec::new();
            children.push(Node::Expr(cond));
            children.push(Node::Stmt(body));
            assert(children@ =~= spec_stmt_children(*stmt));
            children
        },
        StmtKind::Print(expr) | StmtKind::Expr(expr) => {
            let mut children = Vec::new();
            children.push(Node::Expr(expr));
            assert(children@ =~= spec_stmt_children(*stmt));
            children
        },
    }
}

/// Returns an [`Expr`]'s child [`Node`]s.
pub fn expr_children(expr: &Expr) -> (children: Vec<Node<'_>>)
    ensures
        children@ == spec_expr_children(*expr),
{
    let mut children = Vec::new();
    match &expr.kind {
        ExprKind::AssignVar(ident, value) => {
            children.push(Node::Ident(ident));
            children.push(Node::Expr(value));
        },
        ExprKind::AssignField(instance, name, value) => {
            children.push(Node::Expr(instance));
            children.push(Node::Ident(name));
            children.push(Node::Expr(value));
        },
        ExprKind::Literal(_) | ExprKind::Variable(_) | ExprKind::This => {},
        ExprKind::Property(instance, ident) => {
            children.push(Node::Expr(instance));
            children.push(Node::Ident(ident));
        },
        ExprKind::Super(ident) => {
            children.push(Node::Ident(ident));
        },
        ExprKind::Paren(inner) | ExprKind::Unary(_, inner) => {
            children.push(Node::Expr(inner));
        },
        ExprKind::Binary(_, lhs, rhs) | ExprKind::Logic(_, lhs, rhs) => {
            children.push(Node::Expr(lhs));
            children.push(Node::Expr(rhs));
        },
        ExprKind::Call(callee, args) => {
            children.push(Node::Expr(callee));
            let mut i: usize = 0;
            while i < args.len()
                invariant
                    i <= args@.len(),
                    children@ == seq![Node::Expr(&**callee)] + Seq::new(i as nat, |k: int| Node::Expr(&args@[k])),
                decreases args@.len() - i,
            {
                children.push(Node::Expr(&args[i]));
                i = i + 1;
                assert(children@ =~= seq![Node::Expr(&**callee)] + Seq::new(i as nat, |k: int| Node::Expr(&args@[k])));
            }
        },
    }
    assert(children@ =~= spec_expr_children(*expr));
    children
}

/// A [`Stmt`]'s name.
pub open spec fn spec_stmt_name(stmt: Stmt) -> Seq<char> {
    match stmt.kind {
        StmtKind::Block(_) => "Block"@,
        StmtKind::If(_, _, _) => "If"@,
        StmtKind::Print(_) => "Print"@,
        StmtKind::Expr(_) => "Expr"@,
    }
}

/// Returns a [`Stmt`]'s name.
pub fn stmt_name(stmt: &Stmt) -> (name: &'static str)
    ensures
        name@ == spec_stmt_name(*stmt),
{
    match &stmt.kind {
        StmtKind::Block(_) => "Block",
        StmtKind::If(_, _, _) => "If",
        StmtKind::Print(_) => "Print",
        StmtKind::Expr(_) => "Expr",
    }
}

/// An [`Expr`]'s name: the name of its kind.
pub open spec fn spec_expr_name(expr: Expr) -> Seq<char> {
    match expr.kind {
        ExprKind::AssignVar(_, _) => "AssignVar"@,
        ExprKind::AssignField(_, _, _) => "AssignField"@,
        ExprKind::Literal(_) => "Literal"@,
        ExprKind::Variable(_) => "Variable"@,
        ExprKind::Property(_, _) => "Property"@,
        ExprKind::This => "This"@,
        ExprKind::Super(_) => "Super"@,
        ExprKind::Paren(_) => "Paren"@,
        ExprKind::Unary(_, _) => "Unary"@,
        ExprKind::Binary(_, _, _) => "Binary"@,
        ExprKind::Logic(_, _, _) => "Logic"@,
        ExprKind::Call(_, _) => "Call"@,
    }
}

/// Returns an [`Expr`]'s name.
pub fn expr_name(expr: &Expr) -> (name: &'static str)
    ensures
        name@ == spec_expr_name(*expr),
{
    match &expr.kind {
        ExprKind::AssignVar(_, _) => "AssignVar",
        ExprKind::AssignField(_, _, _) => "AssignField",
        ExprKind::Literal(_) => "Literal",
        ExprKind::Variable(_) => "Variable",
        ExprKind::Property(_, _) => "Property",
        ExprKind::This => "This",
        ExprKind::Super(_) => "Super",
        ExprKind::Paren(_) => "Paren",
        ExprKind::Unary(_, _) => "Unary",
        ExprKind::Binary(_, _, _) => "Binary",
        ExprKind::Logic(_, _, _) => "Logic",
        ExprKind::Call(_, _) => "Call",
    }
}

/// A [`UnOp`]'s name.
pub open spec fn spec_un_op_name(op: UnOp) -> Seq<char> {
    match op {
        UnOp::Minus => "Minus"@,
        UnOp::Not => "Not"@,
    }
}

/// Returns a [`UnOp`]'s name.
pub fn un_op_name(op: UnOp) -> (name: &'static str)
    ensures
        name@ == spec_un_op_name(op),
{
    match op {
        UnOp::Minus => "Minus",
        UnOp::Not => "Not",
    }
}

/// A [`BinOp`]'s name.
pub open spec fn spec_bin_op_name(op: BinOp) -> Seq<char> {
    match op {
        BinOp::Add => "Add"@,
        BinOp::Subtract => "Subtract"@,
        BinOp::Multiply => "Multiply"@,
        BinOp::Divide => "Divide"@,
        BinOp::Equal => "Equal"@,
        BinOp::NotEqual => "NotEqual"@,
        BinOp::Greater => "Greater"@,
        BinOp::GreaterEqual => "GreaterEqual"@,
        BinOp::Less => "Less"@,
        BinOp::LessEqual => "LessEqual"@,
    }
}

/// Returns a [`BinOp`]'s name.
pub fn bin_op_name(op: BinOp) -> (name: &'static str)
    ensures
        name@ == spec_bin_op_name(op),
{
    match op {
        BinOp::Add => "Add",
        BinOp::Subtract => "Subtract",
        BinOp::Multiply => "Multiply",
        BinOp::Divide => "Divide",
        BinOp::Equal => "Equal",
        BinOp::NotEqual => "NotEqual",
        BinOp::Greater => "Greater",
        BinOp::GreaterEqual => "GreaterEqual",
        BinOp::Less => "Less",
        BinOp::LessEqual => "LessEqual",
    }
}

/// A [`LogicOp`]'s name.
pub open spec fn spec_logic_op_name(op: LogicOp) -> Seq<char> {
    match op {
        LogicOp::And => "And"@,
        LogicOp::Or => "Or"@,
    }
}

/// Returns a [`LogicOp`]'s name.
pub fn logic_op_name(op: LogicOp) -> (name: &'static str)
    ensures
        name@ == spec_logic_op_name(op),
{
    match op {
        LogicOp::And => "And",
        LogicOp::Or => "Or",
    }
}

/// The indent segment of one level of a dumped tree line. `own` tells whether
/// the level is the line's own node (the deepest level), and `last` whether
/// the node of that level is the last child of its parent.
pub open spec fn spec_indent_segment(own: bool, last: bool) -> Seq<char> {
    match (own, last) {
        (false, false) => "│ "@,
        (false, true) => "  "@,
        (true, false) => "├─"@,
        (true, true) => "└─"@,
    }
}

/// Returns the indent of a dumped tree line, one segment per level, from
/// flags that tell for each level whether its node is the last child of its
/// parent.
pub fn indent_segments(flags: &Vec<bool>) -> (segments: Vec<&'static str>)
    ensures
        segments@.len() == flags@.len(),
        forall|level: int|
            0 <= level < flags@.len() ==> #[trigger] segments@[level]@ == spec_indent_segment(
                level == flags@.len() - 1,
                flags@[level],
            ),
{
    let mut segments: Vec<&'static str> = Vec::new();
    let mut level: usize = 0;
    while level < flags.len()
        invariant
            level <= flags@.len(),
            segments@.len() == level,
            forall|k: int|
                0 <= k < level ==> #[trigger] segments@[k]@ == spec_indent_segment(
                    k == flags@.len() - 1,
                    flags@[k],
                ),
        decreases flags@.len() - level,
    {
        let segment = match (level == flags.len() - 1, flags[level]) {
            (false, false) => "│ ",
            (false, true) => "  ",
            (true, false) => "├─",
            (true, true) => "└─",
        };
        segments.push(segment);
        level = level + 1;
    }
    segments
}

/// An expression's child nodes are its parts in the order they are written:
/// the left operand before the right one, the callee before its arguments
/// (in order), the instance before the property's name, and an assignment's
/// target before its value. Leaves have no children.
pub proof fn law_expr_children_in_order(expr: Expr)
    ensures
        expr.kind matches ExprKind::Binary(_, lhs, rhs) ==> spec_expr_children(expr) == seq![
            Node::Expr(&*lhs),
            Node::Expr(&*rhs),
        ],
        expr.kind matches ExprKind::Logic(_, lhs, rhs) ==> spec_expr_children(expr) == seq![
            Node::Expr(&*lhs),
            Node::Expr(&*rhs),
        ],
        expr.kind matches ExprKind::Unary(_, operand) ==> spec_expr_children(expr) == seq![Node::Expr(&*operand)],
        expr.kind matches ExprKind::Paren(inner) ==> spec_expr_children(expr) == seq![Node::Expr(&*inner)],
        expr.kind matches ExprKind::AssignVar(target, value) ==> spec_expr_children(expr) == seq![
            Node::Ident(&target),
            Node::Expr(&*value),
        ],
        expr.kind matches ExprKind::AssignField(instance, name, value) ==> spec_expr_children(expr) == seq![
            Node::Expr(&*instance),
            Node::Ident(&name),
            Node::Expr(&*value),
        ],
        expr.kind matches ExprKind::Property(instance, name) ==> spec_expr_children(expr) == seq![
            Node::Expr(&*instance),
            Node::Ident(&name),
        ],
        expr.kind matches ExprKind::Super(method) ==> spec_expr_children(expr) == seq![Node::Ident(&method)],
        expr.kind matches ExprKind::Call(callee, args) ==> {
            &&& spec_expr_children(expr).len() == args@.len() + 1
            &&& spec_expr_children(expr)[0] == Node::Expr(&*callee)
            &&& forall|i: int| 0 <= i < args@.len() ==> spec_expr_children(expr)[i + 1] == Node::Expr(&args@[i])
        },
        expr.kind is Literal || expr.kind is Variable || expr.kind is This ==> spec_expr_children(expr).len() == 0,
{
}

/// A statement's child nodes are its parts in the order they are written:
/// a condition before its branches, a block's declarations in order.
pub proof fn law_stmt_children_in_order(stmt: Stmt)
    ensures
        stmt.kind matches StmtKind::Block(decls) ==> spec_stmt_children(stmt).len() == decls@.len() && forall|i: int|
            0 <= i < decls@.len() ==> spec_stmt_children(stmt)[i] == Node::Stmt(&decls@[i]),
        stmt.kind matches StmtKind::If(cond, then_stmt, None) ==> spec_stmt_children(stmt) == seq![
            Node::Expr(&*cond),
            Node::Stmt(&*then_stmt),
        ],
        stmt.kind matches StmtKind::If(cond, then_stmt, Some(else_stmt)) ==> spec_stmt_children(stmt) == seq![
            Node::Expr(&*cond),
            Node::Stmt(&*then_stmt),
            Node::Stmt(&*else_stmt),
        ],
        stmt.kind matches StmtKind::Print(value) ==> spec_stmt_children(stmt) == seq![Node::Expr(&*value)],
        stmt.kind matches StmtKind::Expr(value) ==> spec_stmt_children(stmt) == seq![Node::Expr(&*value)],
{
}

} // verus!
