use lox::diagnostics::{kind_parts, Diag, MessagePart};
use lox::symbols::Symbol;
use lox::tokens::{Literal, TokenKind, TokenType};

#[test]
fn describes_token_kinds() {
    assert_eq!(kind_parts(TokenKind::Semi), vec![MessagePart::Text("';'")]);
    assert_eq!(
        kind_parts(TokenKind::Ident(Symbol(3))),
        vec![MessagePart::Text("identifier '"), MessagePart::Symbol(Symbol(3)), MessagePart::Text("'")]
    );
    assert_eq!(
        kind_parts(TokenKind::Literal(Literal::Nil)),
        vec![MessagePart::Text("literal "), MessagePart::Literal(Literal::Nil)]
    );
}

#[test]
fn gives_each_diagnostic_its_message() {
    assert_eq!(
        Diag::UnexpectedChar('@').message(),
        vec![MessagePart::Text("Unexpected character "), MessagePart::Char('@'), MessagePart::Text(".")]
    );
    assert_eq!(
        Diag::UnterminatedString.message(),
        vec![MessagePart::Text("This string has no terminating '\"'.")]
    );
    assert_eq!(
        Diag::LeadingDecimal.message(),
        vec![MessagePart::Text("This number starts with '.' - add a leading '0'.")]
    );
    assert_eq!(
        Diag::TrailingDecimal.message(),
        vec![MessagePart::Text("This number has a trailing '.' - remove it or add a trailing '0'.")]
    );
    assert_eq!(
        Diag::InvalidAssign.message(),
        vec![MessagePart::Text("This is not a valid assignment target.")]
    );
    assert_eq!(
        Diag::ExpectedExpr(TokenKind::Plus).message(),
        vec![
            MessagePart::Text("Expected an expression, found "),
            MessagePart::Text("'+'"),
            MessagePart::Text("."),
        ]
    );
    assert_eq!(
        Diag::UnexpectedToken(TokenType::CloseParen, TokenKind::Ident(Symbol(1))).message(),
        vec![
            MessagePart::Text("Expected "),
            MessagePart::Text("a closing ')'"),
            MessagePart::Text(", found "),
            MessagePart::Text("identifier '"),
            MessagePart::Symbol(Symbol(1)),
            MessagePart::Text("'"),
            MessagePart::Text("."),
        ]
    );
}
