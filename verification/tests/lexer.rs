use lox::diagnostics::Diag;
use lox::lex::Lexer;
use lox::log::Log;
use lox::symbols::SymbolTable;
use lox::tokens::{Literal, Token, TokenKind, TokenType};

/// Lexes all tokens of source code, the end of file token included, and
/// returns them with the lexer's table and log.
fn lex_all(source: &str) -> (Vec<Token>, SymbolTable, Log) {
    let mut lexer = Lexer::new(source, SymbolTable::new(), Log::new());
    let mut tokens = Vec::new();
    loop {
        let token = lexer.next_token();
        let is_eof = token.token_type() == TokenType::Eof;
        tokens.push(token);
        if is_eof {
            break;
        }
    }
    let (symbols, log) = lexer.into_parts();
    (tokens, symbols, log)
}

fn offsets(token: &Token) -> (u32, u32) {
    (token.span.start().offset(), token.span.end().offset())
}

fn types(tokens: &[Token]) -> Vec<TokenType> {
    tokens.iter().map(|token| token.token_type()).collect()
}

#[test]
fn lexes_a_declaration_with_spans() {
    let (tokens, symbols, log) = lex_all("var x = 1.5;");
    assert_eq!(
        types(&tokens),
        vec![TokenType::Var, TokenType::Ident, TokenType::Equals, TokenType::Literal, TokenType::Semi, TokenType::Eof]
    );
    let spans: Vec<(u32, u32)> = tokens.iter().map(offsets).collect();
    assert_eq!(spans, vec![(0, 3), (4, 5), (6, 7), (8, 11), (11, 12), (12, 12)]);
    match tokens[1].kind {
        TokenKind::Ident(symbol) => assert_eq!(symbols.string(symbol), "x"),
        _ => panic!("expected an identifier"),
    }
    match tokens[3].kind {
        TokenKind::Literal(Literal::Number(span)) => {
            assert_eq!((span.start().offset(), span.end().offset()), (8, 11));
        },
        _ => panic!("expected a number"),
    }
    assert_eq!(log.len(), 0);
}

#[test]
fn lexes_keywords_and_literals() {
    let (tokens, _, _) = lex_all("and class else false for fun if nil or print return super this true var while");
    assert_eq!(
        types(&tokens),
        vec![
            TokenType::And,
            TokenType::Class,
            TokenType::Else,
            TokenType::Literal,
            TokenType::For,
            TokenType::Fun,
            TokenType::If,
            TokenType::Literal,
            TokenType::Or,
            TokenType::Print,
            TokenType::Return,
            TokenType::Super,
            TokenType::This,
            TokenType::Literal,
            TokenType::Var,
            TokenType::While,
            TokenType::Eof,
        ]
    );
    assert_eq!(tokens[3].kind, TokenKind::Literal(Literal::Bool(false)));
    assert_eq!(tokens[7].kind, TokenKind::Literal(Literal::Nil));
    assert_eq!(tokens[13].kind, TokenKind::Literal(Literal::Bool(true)));
    assert!(tokens[0].is_keyword());
    assert!(!tokens[3].is_keyword());
}

#[test]
fn keywords_are_not_interned_but_identifiers_are() {
    let (tokens, symbols, _) = lex_all("while whiles _x x1");
    assert_eq!(types(&tokens), vec![TokenType::While, TokenType::Ident, TokenType::Ident, TokenType::Ident, TokenType::Eof]);
    assert_eq!(symbols.len(), 4);
    assert_eq!(symbols.string(lox::symbols::Symbol(1)), "whiles");
    assert_eq!(symbols.string(lox::symbols::Symbol(2)), "_x");
    assert_eq!(symbols.string(lox::symbols::Symbol(3)), "x1");
}

#[test]
fn lexes_operators_and_digraphs() {
    let (tokens, _, _) = lex_all("(){},.-+;/*! != = == > >= < <=");
    assert_eq!(
        types(&tokens),
        vec![
            TokenType::OpenParen,
            TokenType::CloseParen,
            TokenType::OpenBrace,
            TokenType::CloseBrace,
            TokenType::Comma,
            TokenType::Dot,
            TokenType::Minus,
            TokenType::Plus,
            TokenType::Semi,
            TokenType::Slash,
            TokenType::Star,
            TokenType::Bang,
            TokenType::BangEquals,
            TokenType::Equals,
            TokenType::EqualsEquals,
            TokenType::Greater,
            TokenType::GreaterEquals,
            TokenType::Less,
            TokenType::LessEquals,
            TokenType::Eof,
        ]
    );
}

#[test]
fn skips_comments_and_whitespace() {
    let (tokens, _, log) = lex_all("// a comment\n\t+ // another");
    assert_eq!(types(&tokens), vec![TokenType::Plus, TokenType::Eof]);
    assert_eq!(offsets(&tokens[0]), (14, 15));
    assert_eq!(offsets(&tokens[1]), (26, 26));
    assert_eq!(log.len(), 0);
}

#[test]
fn reports_a_trailing_decimal_point() {
    let (tokens, _, log) = lex_all("12.");
    assert_eq!(types(&tokens), vec![TokenType::Literal, TokenType::Eof]);
    assert_eq!(offsets(&tokens[0]), (0, 3));
    let reports = log.reports();
    assert_eq!(reports.len(), 1);
    assert_eq!(reports[0].diag, Diag::TrailingDecimal);
    assert_eq!((reports[0].span.start().offset(), reports[0].span.end().offset()), (2, 3));
}

#[test]
fn reports_a_leading_decimal_point() {
    let (tokens, _, log) = lex_all(".5");
    assert_eq!(types(&tokens), vec![TokenType::Literal, TokenType::Eof]);
    assert_eq!(offsets(&tokens[0]), (0, 2));
    let reports = log.reports();
    assert_eq!(reports.len(), 1);
    assert_eq!(reports[0].diag, Diag::LeadingDecimal);
    assert_eq!((reports[0].span.start().offset(), reports[0].span.end().offset()), (0, 0));
}

#[test]
fn a_dot_before_a_name_is_a_dot() {
    let (tokens, _, log) = lex_all("a.b");
    assert_eq!(types(&tokens), vec![TokenType::Ident, TokenType::Dot, TokenType::Ident, TokenType::Eof]);
    assert_eq!(log.len(), 0);
}

#[test]
fn lexes_strings() {
    let (tokens, symbols, log) = lex_all("\"hi there\" \"\"");
    assert_eq!(types(&tokens), vec![TokenType::Literal, TokenType::Literal, TokenType::Eof]);
    assert_eq!(offsets(&tokens[0]), (0, 10));
    match tokens[0].kind {
        TokenKind::Literal(Literal::String(symbol)) => assert_eq!(symbols.string(symbol), "hi there"),
        _ => panic!("expected a string"),
    }
    match tokens[1].kind {
        TokenKind::Literal(Literal::String(symbol)) => assert_eq!(symbols.string(symbol), ""),
        _ => panic!("expected a string"),
    }
    assert_eq!(log.len(), 0);
}

#[test]
fn reports_an_unterminated_string() {
    let (tokens, symbols, log) = lex_all("\"abc");
    assert_eq!(types(&tokens), vec![TokenType::Literal, TokenType::Eof]);
    assert_eq!(offsets(&tokens[0]), (0, 4));
    match tokens[0].kind {
        TokenKind::Literal(Literal::String(symbol)) => assert_eq!(symbols.string(symbol), "abc"),
        _ => panic!("expected a string"),
    }
    let reports = log.reports();
    assert_eq!(reports.len(), 1);
    assert_eq!(reports[0].diag, Diag::UnterminatedString);
    assert_eq!((reports[0].span.start().offset(), reports[0].span.end().offset()), (1, 4));
}

#[test]
fn reports_unexpected_characters_by_their_bytes() {
    let (tokens, symbols, log) = lex_all("fóó @");
    assert_eq!(types(&tokens), vec![TokenType::Ident, TokenType::Eof]);
    assert_eq!(offsets(&tokens[0]), (0, 1));
    assert_eq!(offsets(&tokens[1]), (7, 7));
    match tokens[0].kind {
        TokenKind::Ident(symbol) => assert_eq!(symbols.string(symbol), "f"),
        _ => panic!("expected an identifier"),
    }
    let reports = log.reports();
    assert_eq!(reports.len(), 3);
    assert_eq!(reports[0].diag, Diag::UnexpectedChar('ó'));
    assert_eq!((reports[0].span.start().offset(), reports[0].span.end().offset()), (1, 3));
    assert_eq!(reports[1].diag, Diag::UnexpectedChar('ó'));
    assert_eq!((reports[1].span.start().offset(), reports[1].span.end().offset()), (3, 5));
    assert_eq!(reports[2].diag, Diag::UnexpectedChar('@'));
    assert_eq!((reports[2].span.start().offset(), reports[2].span.end().offset()), (6, 7));
}

#[test]
fn end_of_file_is_sticky() {
    let mut lexer = Lexer::new("x", SymbolTable::new(), Log::new());
    assert_eq!(lexer.next_token().token_type(), TokenType::Ident);
    for _ in 0..3 {
        let token = lexer.next_token();
        assert_eq!(token.token_type(), TokenType::Eof);
        assert_eq!(offsets(&token), (1, 1));
    }
}

#[test]
fn token_type_descriptions() {
    assert_eq!(TokenType::Eof.description(), "end of file");
    assert_eq!(TokenType::OpenParen.description(), "an opening '('");
    assert_eq!(TokenType::BangEquals.description(), "'!='");
    assert_eq!(TokenType::While.description(), "keyword 'while'");
    assert_eq!(TokenType::Ident.description(), "an identifier");
}

#[test]
fn successive_tokens_are_ordered_and_separated_by_trivia() {
    let source = "ab  // note\n\t@ \"s\"";
    let (tokens, _, log) = lex_all(source);
    assert_eq!(types(&tokens), vec![TokenType::Ident, TokenType::Literal, TokenType::Eof]);
    assert_eq!(offsets(&tokens[0]), (0, 2));
    assert_eq!(offsets(&tokens[1]), (15, 18));
    assert_eq!(offsets(&tokens[2]), (18, 18));
    for pair in tokens.windows(2) {
        assert!(offsets(&pair[0]).1 <= offsets(&pair[1]).0);
    }
    assert_eq!(&source[0..2], "ab");
    assert_eq!(&source[15..18], "\"s\"");
    let reports = log.reports();
    assert_eq!(reports.len(), 1);
    assert_eq!(reports[0].diag, Diag::UnexpectedChar('@'));
}
