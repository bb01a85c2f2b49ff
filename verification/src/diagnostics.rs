use vstd::prelude::*;

use crate::symbols::Symbol;
use crate::tokens::{Literal, TokenKind, TokenType};

verus! {

/// A diagnostic message.
#[derive(Debug, PartialEq)]
pub enum Diag {
    /// A [`char`] which does not begin a [`Token`][crate::tokens::Token] was
    /// encountered.
    UnexpectedChar(char),
    /// A string literal without a terminating quote was encountered.
    UnterminatedString,
    /// A number literal with a leading decimal point was encountered.
    LeadingDecimal,
    /// A number literal with a trailing decimal point was encountered.
    TrailingDecimal,
    /// A [`TokenKind`] which does not match an expected [`TokenType`] was
    /// encountered.
    UnexpectedToken(TokenType, TokenKind),
    /// A [`TokenKind`] which does not begin an [`Expr`][crate::ast::Expr] was
    /// encountered.
    ExpectedExpr(TokenKind),
    /// An invalid assignment target was used.
    InvalidAssign,
}

/// A piece of a diagnostic's message.
#[derive(Clone, Copy, Debug, PartialEq, Eq)]
pub enum MessagePart {
    /// Fixed text.
    Text(&'static str),
    /// A character, shown quoted and escaped.
    Char(char),
    /// A literal's value.
    Literal(Literal),
    /// An interned name, or a string's contents.
    Symbol(Symbol),
}

/// Whether a message part is fixed text.
pub open spec fn is_text(part: MessagePart, text: Seq<char>) -> bool {
    part matches MessagePart::Text(t) && t@ == text
}

/// Whether message parts describe a [`TokenKind`]: a literal by its value,
/// an identifier by its name in quotes, and any other token by the
/// description of its [`TokenType`].
pub open spec fn describes_kind(parts: Seq<MessagePart>, kind: TokenKind) -> bool {
    match kind {
        TokenKind::Literal(literal) => parts.len() == 2 && is_text(parts[0], "literal "@) && parts[1]
            == MessagePart::Literal(literal),
        TokenKind::Ident(name) => parts.len() == 3 && is_text(parts[0], "identifier '"@) && parts[1] == MessagePart::Symbol(
            name,
        ) && is_text(parts[2], "'"@),
        _ => parts.len() == 1 && is_text(parts[0], kind.spec_token_type().spec_description()),
    }
}

/// Returns the message parts that describe a [`TokenKind`].
pub fn kind_parts(kind: TokenKind) -> (parts: Vec<MessagePart>)
    ensures
        describes_kind(parts@, kind),
{
    match kind {
        TokenKind::Literal(literal) => vec![MessagePart::Text("literal "), MessagePart::Literal(literal)],
        TokenKind::Ident(name) => vec![MessagePart::Text("identifier '"), MessagePart::Symbol(name), MessagePart::Text("'")],
        _ => vec![MessagePart::Text(kind.token_type().description())],
    }
}

/// Whether message parts are a [`Diag`]'s message.
pub open spec fn is_message(parts: Seq<MessagePart>, diag: Diag) -> bool {
    match diag {
        Diag::UnexpectedChar(c) => parts.len() == 3 && is_text(parts[0], "Unexpected character "@) && parts[1]
            == MessagePart::Char(c) && is_text(parts[2], "."@),
        Diag::UnterminatedString => parts.len() == 1 && is_text(parts[0], "This string has no terminating '\"'."@),
        Diag::LeadingDecimal => parts.len() == 1 && is_text(parts[0], "This number starts with '.' - add a leading '0'."@),
        Diag::TrailingDecimal => parts.len() == 1 && is_text(
            parts[0],
            "This number has a trailing '.' - remove it or add a trailing '0'."@,
        ),
        Diag::ExpectedExpr(kind) => {
            &&& parts.len() >= 2
            &&& is_text(parts[0], "Expected an expression, found "@)
            &&& describes_kind(parts.subrange(1, parts.len() - 1), kind)
            &&& is_text(parts.last(), "."@)
        },
        Diag::UnexpectedToken(token_type, kind) => {
            &&& parts.len() >= 5
            &&& is_text(parts[0], "Expected "@)
            &&& is_text(parts[1], token_type.spec_description())
            &&& is_text(parts[2], ", found "@)
            &&& describes_kind(parts.subrange(3, parts.len() - 1), kind)
            &&& is_text(parts.last(), "."@)
        },
        Diag::InvalidAssign => parts.len() == 1 && is_text(parts[0], "This is not a valid assignment target."@),
    }
}

impl Diag {
    /// Returns the `Diag`'s message, in parts.
    pub fn message(&self) -> (parts: Vec<MessagePart>)
        ensures
            is_message(parts@, *self),
    {
        match *self {
            Diag::UnexpectedChar(c) => vec![
                MessagePart::Text("Unexpected character "),
                MessagePart::Char(c),
                MessagePart::Text("."),
            ],
            Diag::UnterminatedString => vec![MessagePart::Text("This string has no terminating '\"'.")],
            Diag::LeadingDecimal => vec![MessagePart::Text("This number starts with '.' - add a leading '0'.")],
            Diag::TrailingDecimal => vec![
                MessagePart::Text("This number has a trailing '.' - remove it or add a trailing '0'."),
            ],
            Diag::ExpectedExpr(kind) => {
                let mut parts = vec![MessagePart::Text("Expected an expression, found ")];
                let mut found = kind_parts(kind);
                let ghost described = found@;
                parts.append(&mut found);
                parts.push(MessagePart::Text("."));
                proof {
                    assert(parts@.subrange(1, parts@.len() - 1) =~= described);
                }
                parts
            },
            Diag::UnexpectedToken(token_type, kind) => {
                let mut parts = vec![
                    MessagePart::Text("Expected "),
                    MessagePart::Text(token_type.description()),
                    MessagePart::Text(", found "),
                ];
                let mut found = kind_parts(kind);
                let ghost described = found@;
                parts.append(&mut found);
                parts.push(MessagePart::Text("."));
                proof {
                    assert(parts@.subrange(3, parts@.len() - 1) =~= described);
                }
                parts
            },
            Diag::InvalidAssign => vec![MessagePart::Text("This is not a valid assignment target.")],
        }
    }
}

} // verus!
