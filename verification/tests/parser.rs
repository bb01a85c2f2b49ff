use lox::ast::{Ast, BinOp, Expr, ExprKind, LogicOp, StmtKind, UnOp};
use lox::diagnostics::Diag;
use lox::log::Log;
use lox::parse::{fits_in_table, parse_source};
use lox::symbols::{Symbol, SymbolTable};
use lox::tokens::{Literal, TokenKind, TokenType};

/// Parses source code with a fresh table and log.
fn parse(source: &str) -> (Ast, SymbolTable, Log) {
    let mut symbols = SymbolTable::new();
    let mut log = Log::new();
    assert!(fits_in_table(source, &symbols));
    let ast = parse_source(source, &mut symbols, &mut log);
    (ast, symbols, log)
}

/// The expression of an expression statement.
fn expr_stmt(ast: &Ast, index: usize) -> &Expr {
    match &ast.0[index].kind {
        StmtKind::Expr(expr) => expr,
        _ => panic!("expected an expression statement"),
    }
}

fn name<'a>(symbols: &'a SymbolTable, expr: &Expr) -> &'a str {
    match expr.kind {
        ExprKind::Variable(symbol) => symbols.string(symbol),
        _ => panic!("expected a variable"),
    }
}

fn span(expr: &Expr) -> (u32, u32) {
    (expr.span.start().offset(), expr.span.end().offset())
}

#[test]
fn subtraction_is_left_associative() {
    let (ast, symbols, log) = parse("a - b - c;");
    assert_eq!(log.len(), 0);
    assert_eq!(ast.0.len(), 1);
    let expr = expr_stmt(&ast, 0);
    assert_eq!(span(expr), (0, 9));
    match &expr.kind {
        ExprKind::Binary(BinOp::Subtract, lhs, rhs) => {
            assert_eq!(name(&symbols, rhs), "c");
            assert_eq!(span(lhs), (0, 5));
            match &lhs.kind {
                ExprKind::Binary(BinOp::Subtract, a, b) => {
                    assert_eq!(name(&symbols, a), "a");
                    assert_eq!(name(&symbols, b), "b");
                },
                _ => panic!("expected a subtraction"),
            }
        },
        _ => panic!("expected a subtraction"),
    }
    assert_eq!((ast.0[0].span.start().offset(), ast.0[0].span.end().offset()), (0, 10));
}

#[test]
fn assignment_is_right_associative() {
    let (ast, symbols, log) = parse("a = b = c;");
    assert_eq!(log.len(), 0);
    match &expr_stmt(&ast, 0).kind {
        ExprKind::AssignVar(a, value) => {
            assert_eq!(symbols.string(a.symbol), "a");
            match &value.kind {
                ExprKind::AssignVar(b, c) => {
                    assert_eq!(symbols.string(b.symbol), "b");
                    assert_eq!(name(&symbols, c), "c");
                },
                _ => panic!("expected an assignment"),
            }
        },
        _ => panic!("expected an assignment"),
    }
}

#[test]
fn multiplication_binds_tighter_than_addition() {
    let (ast, _, log) = parse("1 + 2 * 3;");
    assert_eq!(log.len(), 0);
    match &expr_stmt(&ast, 0).kind {
        ExprKind::Binary(BinOp::Add, one, product) => {
            assert!(matches!(one.kind, ExprKind::Literal(Literal::Number(_))));
            assert!(matches!(product.kind, ExprKind::Binary(BinOp::Multiply, _, _)));
            assert_eq!(span(product), (4, 9));
        },
        _ => panic!("expected an addition"),
    }
}

#[test]
fn logic_operators_bind_looser_than_comparisons() {
    let (ast, _, log) = parse("a or b and c < d == e;");
    assert_eq!(log.len(), 0);
    match &expr_stmt(&ast, 0).kind {
        ExprKind::Logic(LogicOp::Or, _, rhs) => match &rhs.kind {
            ExprKind::Logic(LogicOp::And, _, rhs) => {
                assert!(matches!(rhs.kind, ExprKind::Binary(BinOp::Equal, _, _)));
                match &rhs.kind {
                    ExprKind::Binary(BinOp::Equal, lhs, _) => {
                        assert!(matches!(lhs.kind, ExprKind::Binary(BinOp::Less, _, _)))
                    },
                    _ => unreachable!(),
                }
            },
            _ => panic!("expected an and"),
        },
        _ => panic!("expected an or"),
    }
}

#[test]
fn parses_calls_properties_and_unary_operators() {
    let (ast, symbols, log) = parse("-!f(1, x).g;");
    assert_eq!(log.len(), 0);
    match &expr_stmt(&ast, 0).kind {
        ExprKind::Unary(UnOp::Minus, inner) => match &inner.kind {
            ExprKind::Unary(UnOp::Not, inner) => match &inner.kind {
                ExprKind::Property(call, g) => {
                    assert_eq!(symbols.string(g.symbol), "g");
                    match &call.kind {
                        ExprKind::Call(callee, args) => {
                            assert_eq!(name(&symbols, callee), "f");
                            assert_eq!(args.len(), 2);
                            assert_eq!(name(&symbols, &args[1]), "x");
                        },
                        _ => panic!("expected a call"),
                    }
                },
                _ => panic!("expected a property"),
            },
            _ => panic!("expected a negation"),
        },
        _ => panic!("expected a minus"),
    }
}

#[test]
fn parses_empty_calls_and_field_assignments() {
    let (ast, symbols, log) = parse("f().x = this;");
    assert_eq!(log.len(), 0);
    match &expr_stmt(&ast, 0).kind {
        ExprKind::AssignField(instance, name, value) => {
            assert_eq!(symbols.string(name.symbol), "x");
            assert!(matches!(&instance.kind, ExprKind::Call(_, args) if args.is_empty()));
            assert!(matches!(value.kind, ExprKind::This));
        },
        _ => panic!("expected a field assignment"),
    }
}

#[test]
fn parses_print_and_block_statements() {
    let (ast, _, log) = parse("print (1); { x; { } } super.m;");
    assert_eq!(log.len(), 0);
    assert_eq!(ast.0.len(), 3);
    match &ast.0[0].kind {
        StmtKind::Print(value) => assert!(matches!(value.kind, ExprKind::Paren(_))),
        _ => panic!("expected a print"),
    }
    match &ast.0[1].kind {
        StmtKind::Block(decls) => {
            assert_eq!(decls.len(), 2);
            assert!(matches!(&decls[1].kind, StmtKind::Block(inner) if inner.is_empty()));
        },
        _ => panic!("expected a block"),
    }
    assert!(matches!(expr_stmt(&ast, 2).kind, ExprKind::Super(_)));
}

#[test]
fn reports_an_invalid_assignment_target() {
    let (ast, _, log) = parse("1 = 2;");
    let reports = log.reports();
    assert_eq!(reports.len(), 1);
    assert_eq!(reports[0].diag, Diag::InvalidAssign);
    assert_eq!((reports[0].span.start().offset(), reports[0].span.end().offset()), (0, 1));
    assert!(matches!(expr_stmt(&ast, 0).kind, ExprKind::Variable(symbol) if symbol == Symbol::error()));
}

#[test]
fn reports_once_per_declaration_in_panic_mode() {
    let (ast, _, log) = parse("+ + +; x;");
    let reports = log.reports();
    assert_eq!(reports.len(), 1);
    assert_eq!(reports[0].diag, Diag::ExpectedExpr(TokenKind::Plus));
    assert_eq!((reports[0].span.start().offset(), reports[0].span.end().offset()), (0, 1));
    // Panic mode skips up to and past the next semicolon after the first
    // declaration ends, which swallows `x;`.
    assert_eq!(ast.0.len(), 1);
}

#[test]
fn panic_mode_stops_at_a_declaration_keyword() {
    let (ast, _, log) = parse("+; y print z;");
    assert_eq!(log.reports().len(), 1);
    assert_eq!(ast.0.len(), 2);
    assert!(matches!(ast.0[1].kind, StmtKind::Print(_)));
}

#[test]
fn reports_a_missing_closing_parenthesis() {
    let (_, _, log) = parse("(1;");
    let reports = log.reports();
    assert_eq!(reports.len(), 1);
    assert_eq!(reports[0].diag, Diag::UnexpectedToken(TokenType::CloseParen, TokenKind::Semi));
    assert_eq!((reports[0].span.start().offset(), reports[0].span.end().offset()), (2, 3));
}

#[test]
fn a_keyword_in_place_of_a_name_is_consumed() {
    let (ast, _, log) = parse("x.print;");
    let reports = log.reports();
    assert_eq!(reports.len(), 1);
    assert_eq!(reports[0].diag, Diag::UnexpectedToken(TokenType::Ident, TokenKind::Print));
    match &expr_stmt(&ast, 0).kind {
        ExprKind::Property(_, name) => assert_eq!(name.symbol, Symbol::error()),
        _ => panic!("expected a property"),
    }
}

#[test]
fn an_empty_source_has_no_declarations() {
    let (ast, _, log) = parse("  // nothing\n");
    assert_eq!(ast.0.len(), 0);
    assert_eq!(log.len(), 0);
}

#[test]
fn lexer_and_parser_diagnostics_share_the_log() {
    let (_, _, log) = parse("x @;");
    let reports = log.reports();
    assert_eq!(reports.len(), 1);
    assert_eq!(reports[0].diag, Diag::UnexpectedChar('@'));
}

#[test]
fn a_parse_keeps_earlier_symbols_and_reports() {
    let mut symbols = SymbolTable::new();
    let earlier = symbols.intern("earlier");
    let mut log = Log::new();
    log.report(Diag::InvalidAssign, lox::spans::Span::new(lox::spans::BytePos::new(), lox::spans::BytePos::new()));
    let source = "earlier + later; 1 = 2;";
    assert!(fits_in_table(source, &symbols));
    let ast = parse_source(source, &mut symbols, &mut log);
    assert_eq!(ast.0.len(), 2);
    assert_eq!(symbols.string(Symbol::error()), "<error>");
    assert_eq!(symbols.string(earlier), "earlier");
    assert_eq!(symbols.intern("earlier"), earlier);
    assert_eq!(symbols.len(), 3);
    let reports = log.reports();
    assert_eq!(reports.len(), 2);
    assert_eq!(reports[0].diag, Diag::InvalidAssign);
    assert_eq!(reports[0].span.end().offset(), 0);
    assert_eq!(reports[1].diag, Diag::InvalidAssign);
    assert_eq!((reports[1].span.start().offset(), reports[1].span.end().offset()), (17, 18));
}
