use vstd::prelude::*;

use crate::spans::Span;
use crate::symbols::Symbol;

verus! {

/// A [`Token`]'s kind.
#[derive(Clone, Copy, Debug, PartialEq, Eq, Structural)]
pub enum TokenKind {
    /// An end of source code marker.
    Eof,
    /// A [`Literal`].
    Literal(Literal),
    /// An identifier.
    Ident(Symbol),
    /// An opening parenthesis (`(`).
    OpenParen,
    /// A closing parenthesis (`)`).
    CloseParen,
    /// An opening brace (`{`).
    OpenBrace,
    /// A closing brace (`}`).
    CloseBrace,
    /// A comma (`,`).
    Comma,
    /// A dot (`.`).
    Dot,
    /// A minus sign (`-`).
    Minus,
    /// A plus sign (`+`).
    Plus,
    /// A semicolon (`;`).
    Semi,
    /// A forward slash (`/`).
    Slash,
    /// An asterisk (`*`).
    Star,
    /// An exclamation mark (`!`).
    Bang,
    /// An exclamation mark and equals sign (`!=`).
    BangEquals,
    /// An equals sign (`=`).
    Equals,
    /// A double equals sign (`==`).
    EqualsEquals,
    /// A greater than symbol (`>`).
    Greater,
    /// A greater than symbol and equals sign (`>=`).
    GreaterEquals,
    /// A less than symbol (`<`).
    Less,
    /// A less than symbol and equals sign (`<=`).
    LessEquals,
    /// An `and` keyword.
    And,
    /// A `class` keyword.
    Class,
    /// An `else` keyword.
    Else,
    /// A `for` keyword.
    For,
    /// A `fun` keyword.
    Fun,
    /// An `if` keyword.
    If,
    /// An `or` keyword.
    Or,
    /// A `print` keyword.
    Print,
    /// A `return` keyword.
    Return,
    /// A `super` keyword.
    Super,
    /// A `this` keyword.
    This,
    /// A `var` keyword.
    Var,
    /// A `while` keyword.
    While,
}

/// A [`TokenKind`]'s discriminant type.
#[derive(Clone, Copy, Debug, PartialEq, Eq, Hash, Structural)]
pub enum TokenType {
    /// An end of source code marker.
    Eof,
    /// A [`Literal`].
    Literal,
    /// An identifier.
    Ident,
    /// An opening parenthesis (`(`).
    OpenParen,
    /// A closing parenthesis (`)`).
    CloseParen,
    /// An opening brace (`{`).
    OpenBrace,
    /// A closing brace (`}`).
    CloseBrace,
    /// A comma (`,`).
    Comma,
    /// A dot (`.`).
    Dot,
    /// A minus sign (`-`).
    Minus,
    /// A plus sign (`+`).
    Plus,
    /// A semicolon (`;`).
    Semi,
    /// A forward slash (`/`).
    Slash,
    /// An asterisk (`*`).
    Star,
    /// An exclamation mark (`!`).
    Bang,
    /// An exclamation mark and equals sign (`!=`).
    BangEquals,
    /// An equals sign (`=`).
    Equals,
    /// A double equals sign (`==`).
    EqualsEquals,
    /// A greater than symbol (`>`).
    Greater,
    /// A greater than symbol and equals sign (`>=`).
    GreaterEquals,
    /// A less than symbol (`<`).
    Less,
    /// A less than symbol and equals sign (`<=`).
    LessEquals,
    /// An `and` keyword.
    And,
    /// A `class` keyword.
    Class,
    /// An `else` keyword.
    Else,
    /// A `for` keyword.
    For,
    /// A `fun` keyword.
    Fun,
    /// An `if` keyword.
    If,
    /// An `or` keyword.
    Or,
    /// A `print` keyword.
    Print,
    /// A `return` keyword.
    Return,
    /// A `super` keyword.
    Super,
    /// A `this` keyword.
    This,
    /// A `var` keyword.
    Var,
    /// A `while` keyword.
    While,
}

impl TokenKind {
    /// The `TokenKind`'s [`TokenType`].
    pub open spec fn spec_token_type(&self) -> TokenType {
        match self {
            TokenKind::Eof => TokenType::Eof,
            TokenKind::Literal(_) => TokenType::Literal,
            TokenKind::Ident(_) => TokenType::Ident,
            TokenKind::OpenParen => TokenType::OpenParen,
            TokenKind::CloseParen => TokenType::CloseParen,
            TokenKind::OpenBrace => TokenType::OpenBrace,
            TokenKind::CloseBrace => TokenType::CloseBrace,
            TokenKind::Comma => TokenType::Comma,
            TokenKind::Dot => TokenType::Dot,
            TokenKind::Minus => TokenType::Minus,
            TokenKind::Plus => TokenType::Plus,
            TokenKind::Semi => TokenType::Semi,
            TokenKind::Slash => TokenType::Slash,
            TokenKind::Star => TokenType::Star,
            TokenKind::Bang => TokenType::Bang,
            TokenKind::BangEquals => TokenType::BangEquals,
            TokenKind::Equals => TokenType::Equals,
            TokenKind::EqualsEquals => TokenType::EqualsEquals,
            TokenKind::Greater => TokenType::Greater,
            TokenKind::GreaterEquals => TokenType::GreaterEquals,
            TokenKind::Less => TokenType::Less,
            TokenKind::LessEquals => TokenType::LessEquals,
            TokenKind::And => TokenType::And,
            TokenKind::Class => TokenType::Class,
            TokenKind::Else => TokenType::Else,
            TokenKind::For => TokenType::For,
            TokenKind::Fun => TokenType::Fun,
            TokenKind::If => TokenType::If,
            TokenKind::Or => TokenType::Or,
            TokenKind::Print => TokenType::Print,
            TokenKind::Return => TokenType::Return,
            TokenKind::Super => TokenType::Super,
            TokenKind::This => TokenType::This,
            TokenKind::Var => TokenType::Var,
            TokenKind::While => TokenType::While,
        }
    }

    /// Returns the `TokenKind`'s [`TokenType`].
    #[verifier::when_used_as_spec(spec_token_type)]
    pub fn token_type(&self) -> (token_type: TokenType)
        ensures
            token_type == self.spec_token_type(),
    {
        match self {
            TokenKind::Eof => TokenType::Eof,
            TokenKind::Literal(_) => TokenType::Literal,
            TokenKind::Ident(_) => TokenType::Ident,
            TokenKind::OpenParen => TokenType::OpenParen,
            TokenKind::CloseParen => TokenType::CloseParen,
            TokenKind::OpenBrace => TokenType::OpenBrace,
            TokenKind::CloseBrace => TokenType::CloseBrace,
            TokenKind::Comma => TokenType::Comma,
            TokenKind::Dot => TokenType::Dot,
            TokenKind::Minus => TokenType::Minus,
            TokenKind::Plus => TokenType::Plus,
            TokenKind::Semi => TokenType::Semi,
            TokenKind::Slash => TokenType::Slash,
            TokenKind::Star => TokenType::Star,
            TokenKind::Bang => TokenType::Bang,
            TokenKind::BangEquals => TokenType::BangEquals,
            TokenKind::Equals => TokenType::Equals,
            TokenKind::EqualsEquals => TokenType::EqualsEquals,
            TokenKind::Greater => TokenType::Greater,
            TokenKind::GreaterEquals => TokenType::GreaterEquals,
            TokenKind::Less => TokenType::Less,
            TokenKind::LessEquals => TokenType::LessEquals,
            TokenKind::And => TokenType::And,
            TokenKind::Class => TokenType::Class,
            TokenKind::Else => TokenType::Else,
            TokenKind::For => TokenType::For,
            TokenKind::Fun => TokenType::Fun,
            TokenKind::If => TokenType::If,
            TokenKind::Or => TokenType::Or,
            TokenKind::Print => TokenType::Print,
            TokenKind::Return => TokenType::Return,
            TokenKind::Super => TokenType::Super,
            TokenKind::This => TokenType::This,
            TokenKind::Var => TokenType::Var,
            TokenKind::While => TokenType::While,
        }
    }
}

impl TokenType {
    /// A description of the `TokenType`.
    pub open spec fn spec_description(self) -> Seq<char> {
        match self {
            TokenType::Eof => "end of file"@,
            TokenType::Literal => "a literal"@,
            TokenType::Ident => "an identifier"@,
            TokenType::OpenParen => "an opening '('"@,
            TokenType::CloseParen => "a closing ')'"@,
            TokenType::OpenBrace => "an opening '{'"@,
            TokenType::CloseBrace => "a closing '}'"@,
            TokenType::Comma => "','"@,
            TokenType::Dot => "'.'"@,
            TokenType::Minus => "'-'"@,
            TokenType::Plus => "'+'"@,
            TokenType::Semi => "';'"@,
            TokenType::Slash => "'/'"@,
            TokenType::Star => "'*'"@,
            TokenType::Bang => "'!'"@,
            TokenType::BangEquals => "'!='"@,
            TokenType::Equals => "'='"@,
            TokenType::EqualsEquals => "'=='"@,
            TokenType::Greater => "'>'"@,
            TokenType::GreaterEquals => "'>='"@,
            TokenType::Less => "'<'"@,
            TokenType::LessEquals => "'<='"@,
            TokenType::And => "keyword 'and'"@,
            TokenType::Class => "keyword 'class'"@,
            TokenType::Else => "keyword 'else'"@,
            TokenType::For => "keyword 'for'"@,
            TokenType::Fun => "keyword 'fun'"@,
            TokenType::If => "keyword 'if'"@,
            TokenType::Or => "keyword 'or'"@,
            TokenType::Print => "keyword 'print'"@,
            TokenType::Return => "keyword 'return'"@,
            TokenType::Super => "keyword 'super'"@,
            TokenType::This => "keyword 'this'"@,
            TokenType::Var => "keyword 'var'"@,
            TokenType::While => "keyword 'while'"@,
        }
    }

    /// Returns a description of the `TokenType`.
    pub fn description(self) -> (description: &'static str)
        ensures
            description@ == self.spec_description(),
    {
        match self {
            TokenType::Eof => "end of file",
            TokenType::Literal => "a literal",
            TokenType::Ident => "an identifier",
            TokenType::OpenParen => "an opening '('",
            TokenType::CloseParen => "a closing ')'",
            TokenType::OpenBrace => "an opening '{'",
            TokenType::CloseBrace => "a closing '}'",
            TokenType::Comma => "','",
            TokenType::Dot => "'.'",
            TokenType::Minus => "'-'",
            TokenType::Plus => "'+'",
            TokenType::Semi => "';'",
            TokenType::Slash => "'/'",
            TokenType::Star => "'*'",
            TokenType::Bang => "'!'",
            TokenType::BangEquals => "'!='",
            TokenType::Equals => "'='",
            TokenType::EqualsEquals => "'=='",
            TokenType::Greater => "'>'",
            TokenType::GreaterEquals => "'>='",
            TokenType::Less => "'<'",
            TokenType::LessEquals => "'<='",
            TokenType::And => "keyword 'and'",
            TokenType::Class => "keyword 'class'",
            TokenType::Else => "keyword 'else'",
            TokenType::For => "keyword 'for'",
            TokenType::Fun => "keyword 'fun'",
            TokenType::If => "keyword 'if'",
            TokenType::Or => "keyword 'or'",
            TokenType::Print => "keyword 'print'",
            TokenType::Return => "keyword 'return'",
            TokenType::Super => "keyword 'super'",
            TokenType::This => "keyword 'this'",
            TokenType::Var => "keyword 'var'",
            TokenType::While => "keyword 'while'",
        }
    }

    /// Whether the `TokenType` is a keyword's.
    pub open spec fn spec_is_keyword(self) -> bool {
        match self {
            TokenType::And | TokenType::Class | TokenType::Else | TokenType::For | TokenType::Fun | TokenType::If | TokenType::Or | TokenType::Print | TokenType::Return | TokenType::Super | TokenType::This | TokenType::Var | TokenType::While => true,
            _ => false,
        }
    }

    /// Returns [`true`] if the `TokenType` is a keyword's.
    #[verifier::when_used_as_spec(spec_is_keyword)]
    pub fn is_keyword(self) -> (b: bool)
        ensures
            b == self.spec_is_keyword(),
    {
        match self {
            TokenType::And | TokenType::Class | TokenType::Else | TokenType::For | TokenType::Fun | TokenType::If | TokenType::Or | TokenType::Print | TokenType::Return | TokenType::Super | TokenType::This | TokenType::Var | TokenType::While => true,
            _ => false,
        }
    }
}

/// A value which can be represented with a single [`Token`].
#[derive(Clone, Copy, Debug, PartialEq, Eq, Structural)]
pub enum Literal {
    /// A nil value.
    Nil,
    /// A Boolean value.
    Bool(bool),
    /// A number, held as the [`Span`] of the digits (and decimal point) that
    /// spell it in source code.
    Number(Span),
    /// A string.
    String(Symbol),
}

/// A lexical element of source code.
#[derive(Debug)]
pub struct Token {
    /// The [`TokenKind`].
    pub kind: TokenKind,
    /// The [`Span`].
    pub span: Span,
}

impl Token {
    /// Creates a new `Token` from its [`TokenKind`] and [`Span`].
    pub fn new(kind: TokenKind, span: Span) -> (token: Self)
        ensures
            token.kind == kind,
            token.span == span,
    {
        Token { kind, span }
    }

    /// Returns the `Token`'s [`TokenType`].
    pub fn token_type(&self) -> (token_type: TokenType)
        ensures
            token_type == self.kind.spec_token_type(),
    {
        self.kind.token_type()
    }

    /// Returns the `Token`'s [`TokenKind`].
    pub fn kind(&self) -> (kind: TokenKind)
        ensures
            kind == self.kind,
    {
        self.kind
    }

    /// Returns the `Token`'s [`Span`].
    pub fn span(&self) -> (span: Span)
        ensures
            span == self.span,
    {
        self.span
    }

    /// Returns [`true`] if the `Token` is a keyword.
    pub fn is_keyword(&self) -> (b: bool)
        ensures
            b == self.kind.spec_token_type().spec_is_keyword(),
    {
        self.kind.token_type().is_keyword()
    }
}

} // verus!
