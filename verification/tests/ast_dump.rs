use lox::ast::{BinOp, LogicOp, UnOp};
use lox::ast_dump::{bin_op_name, expr_name, indent_segments, logic_op_name, stmt_name, un_op_name, Node};
use lox::log::{Log, RenderContext};
use lox::parse::parse_source;
use lox::symbols::SymbolTable;

#[test]
fn names_operators_and_statements() {
    assert_eq!(un_op_name(UnOp::Minus), "Minus");
    assert_eq!(un_op_name(UnOp::Not), "Not");
    assert_eq!(bin_op_name(BinOp::Add), "Add");
    assert_eq!(bin_op_name(BinOp::GreaterEqual), "GreaterEqual");
    assert_eq!(bin_op_name(BinOp::LessEqual), "LessEqual");
    assert_eq!(logic_op_name(LogicOp::And), "And");
    assert_eq!(logic_op_name(LogicOp::Or), "Or");

    let mut symbols = SymbolTable::new();
    let mut log = Log::new();
    let ast = parse_source("print 1; { } x;", &mut symbols, &mut log);
    assert_eq!(stmt_name(&ast.0[0]), "Print");
    assert_eq!(stmt_name(&ast.0[1]), "Block");
    assert_eq!(stmt_name(&ast.0[2]), "Expr");
}

#[test]
fn nodes_have_children_in_order() {
    let mut symbols = SymbolTable::new();
    let mut log = Log::new();
    let ast = parse_source("a.b = f(1, 2);", &mut symbols, &mut log);
    let root = Node::Ast(&ast);
    assert_eq!(root.span(), None);
    let decls = root.children();
    assert_eq!(decls.len(), 1);
    let stmt = decls[0];
    let span = stmt.span().expect("statements have spans");
    assert_eq!((span.start().offset(), span.end().offset()), (0, 14));
    let exprs = stmt.children();
    assert_eq!(exprs.len(), 1);
    let assign = exprs[0].children();
    assert_eq!(assign.len(), 3);
    assert!(matches!(assign[0], Node::Expr(_)));
    assert!(matches!(assign[1], Node::Ident(_)));
    let call = assign[2].children();
    assert_eq!(call.len(), 3);
    assert!(call[1].children().is_empty());
    let ident = assign[1];
    assert!(ident.children().is_empty());

    let ctx = RenderContext::new("a.b = f(1, 2);", &symbols);
    match ident {
        Node::Ident(ident) => assert_eq!(ctx.symbol_string(ident.symbol), "b"),
        _ => unreachable!(),
    }
    assert_eq!(ctx.source(), "a.b = f(1, 2);");
}

#[test]
fn indents_each_level_of_a_tree_line() {
    assert!(indent_segments(&vec![]).is_empty());
    assert_eq!(indent_segments(&vec![false]), vec!["├─"]);
    assert_eq!(indent_segments(&vec![true]), vec!["└─"]);
    assert_eq!(indent_segments(&vec![false, true, false]), vec!["│ ", "  ", "├─"]);
    assert_eq!(indent_segments(&vec![true, false, true]), vec!["  ", "│ ", "└─"]);
}

#[test]
fn names_expressions() {
    let mut symbols = SymbolTable::new();
    let mut log = Log::new();
    let ast = parse_source("a = -b + f(1);", &mut symbols, &mut log);
    let lox::ast::StmtKind::Expr(expr) = &ast.0[0].kind else { panic!("expected an expression statement") };
    assert_eq!(expr_name(expr), "AssignVar");
    let lox::ast::ExprKind::AssignVar(_, value) = &expr.kind else { panic!("expected an assignment") };
    assert_eq!(expr_name(value), "Binary");
    let lox::ast::ExprKind::Binary(_, lhs, rhs) = &value.kind else { panic!("expected a sum") };
    assert_eq!(expr_name(lhs), "Unary");
    assert_eq!(expr_name(rhs), "Call");
}
