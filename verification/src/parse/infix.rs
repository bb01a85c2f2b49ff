use vstd::prelude::*;

use crate::ast::{BinOp, LogicOp};
use crate::tokens::TokenType;

verus! {

/// An infix operator.
#[derive(Clone, Copy, Debug, PartialEq, Eq, Structural)]
pub enum InfixOp {
    /// An assignment operator.
    Assign,
    /// A [`BinOp`].
    Binary(BinOp),
    /// A [`LogicOp`].
    Logic(LogicOp),
}

/// An [`InfixOp`]'s precedence level, from loosest to tightest.
#[derive(Clone, Copy, Debug, PartialEq, Eq, Structural)]
pub enum Precedence {
    /// An assignment.
    Assign,
    /// A logical or.
    Or,
    /// A logical and.
    And,
    /// An equality test.
    Equality,
    /// A comparison.
    Comparison,
    /// An addition or subtraction.
    Sum,
    /// A multiplication or division.
    Term,
}

/// An [`InfixOp`]'s associativity.
#[derive(Clone, Copy, Debug, PartialEq, Eq, Structural)]
pub enum Associativity {
    /// Left to right.
    Left,
    /// Right to left.
    Right,
}

impl Precedence {
    /// The level's number: 0 for the loosest, 6 for the tightest.
    pub open spec fn spec_level(self) -> u8 {
        match self {
            Precedence::Assign => 0,
            Precedence::Or => 1,
            Precedence::And => 2,
            Precedence::Equality => 3,
            Precedence::Comparison => 4,
            Precedence::Sum => 5,
            Precedence::Term => 6,
        }
    }

    /// Returns the level's number: 0 for the loosest, 6 for the tightest.
    #[verifier::when_used_as_spec(spec_level)]
    pub fn level(self) -> (level: u8)
        ensures
            level == self.spec_level(),
    {
        match self {
            Precedence::Assign => 0,
            Precedence::Or => 1,
            Precedence::And => 2,
            Precedence::Equality => 3,
            Precedence::Comparison => 4,
            Precedence::Sum => 5,
            Precedence::Term => 6,
        }
    }
}

impl InfixOp {
    /// The `InfixOp` of a [`TokenType`], if it has one.
    pub open spec fn spec_from_token_type(token_type: TokenType) -> Option<InfixOp> {
        match token_type {
            TokenType::Minus => Some(InfixOp::Binary(BinOp::Subtract)),
            TokenType::Plus => Some(InfixOp::Binary(BinOp::Add)),
            TokenType::Slash => Some(InfixOp::Binary(BinOp::Divide)),
            TokenType::Star => Some(InfixOp::Binary(BinOp::Multiply)),
            TokenType::BangEquals => Some(InfixOp::Binary(BinOp::NotEqual)),
            TokenType::Equals => Some(InfixOp::Assign),
            TokenType::EqualsEquals => Some(InfixOp::Binary(BinOp::Equal)),
            TokenType::Greater => Some(InfixOp::Binary(BinOp::Greater)),
            TokenType::GreaterEquals => Some(InfixOp::Binary(BinOp::GreaterEqual)),
            TokenType::Less => Some(InfixOp::Binary(BinOp::Less)),
            TokenType::LessEquals => Some(InfixOp::Binary(BinOp::LessEqual)),
            TokenType::And => Some(InfixOp::Logic(LogicOp::And)),
            TokenType::Or => Some(InfixOp::Logic(LogicOp::Or)),
            _ => None,
        }
    }

    /// Creates a new `InfixOp` from a [`TokenType`]. This function returns
    /// [`None`] if the [`TokenType`] does not correspond to an `InfixOp`.
    #[verifier::when_used_as_spec(spec_from_token_type)]
    pub fn from_token_type(token_type: TokenType) -> (op: Option<InfixOp>)
        ensures
            op == InfixOp::spec_from_token_type(token_type),
    {
        let op = match token_type {
            TokenType::Minus => InfixOp::Binary(BinOp::Subtract),
            TokenType::Plus => InfixOp::Binary(BinOp::Add),
            TokenType::Slash => InfixOp::Binary(BinOp::Divide),
            TokenType::Star => InfixOp::Binary(BinOp::Multiply),
            TokenType::BangEquals => InfixOp::Binary(BinOp::NotEqual),
            TokenType::Equals => InfixOp::Assign,
            TokenType::EqualsEquals => InfixOp::Binary(BinOp::Equal),
            TokenType::Greater => InfixOp::Binary(BinOp::Greater),
            TokenType::GreaterEquals => InfixOp::Binary(BinOp::GreaterEqual),
            TokenType::Less => InfixOp::Binary(BinOp::Less),
            TokenType::LessEquals => InfixOp::Binary(BinOp::LessEqual),
            TokenType::And => InfixOp::Logic(LogicOp::And),
            TokenType::Or => InfixOp::Logic(LogicOp::Or),
            _ => return None,
        };
        Some(op)
    }

    /// The `InfixOp`'s precedence level.
    pub open spec fn spec_precedence_level(self) -> Precedence {
        match self {
            InfixOp::Assign => Precedence::Assign,
            InfixOp::Binary(BinOp::Add) | InfixOp::Binary(BinOp::Subtract) => Precedence::Sum,
            InfixOp::Binary(BinOp::Multiply) | InfixOp::Binary(BinOp::Divide) => Precedence::Term,
            InfixOp::Binary(BinOp::Equal) | InfixOp::Binary(BinOp::NotEqual) => Precedence::Equality,
            InfixOp::Binary(BinOp::Greater) | InfixOp::Binary(BinOp::GreaterEqual) | InfixOp::Binary(BinOp::Less)
            | InfixOp::Binary(BinOp::LessEqual) => Precedence::Comparison,
            InfixOp::Logic(LogicOp::And) => Precedence::And,
            InfixOp::Logic(LogicOp::Or) => Precedence::Or,
        }
    }

    /// The number of the `InfixOp`'s precedence level.
    pub open spec fn spec_precedence(self) -> u8 {
        self.spec_precedence_level().spec_level()
    }

    /// Returns the number of the `InfixOp`'s precedence level: a higher
    /// number binds tighter.
    #[verifier::when_used_as_spec(spec_precedence)]
    pub fn precedence(self) -> (precedence: u8)
        ensures
            precedence == self.spec_precedence(),
            precedence <= 6,
    {
        let precedence = match self {
            InfixOp::Assign => Precedence::Assign,
            InfixOp::Binary(BinOp::Add) | InfixOp::Binary(BinOp::Subtract) => Precedence::Sum,
            InfixOp::Binary(BinOp::Multiply) | InfixOp::Binary(BinOp::Divide) => Precedence::Term,
            InfixOp::Binary(BinOp::Equal) | InfixOp::Binary(BinOp::NotEqual) => Precedence::Equality,
            InfixOp::Binary(BinOp::Greater) | InfixOp::Binary(BinOp::GreaterEqual) | InfixOp::Binary(BinOp::Less)
            | InfixOp::Binary(BinOp::LessEqual) => Precedence::Comparison,
            InfixOp::Logic(LogicOp::And) => Precedence::And,
            InfixOp::Logic(LogicOp::Or) => Precedence::Or,
        };
        precedence.level()
    }

    /// The `InfixOp`'s [`Associativity`].
    pub open spec fn spec_associativity(self) -> Associativity {
        match self {
            InfixOp::Assign => Associativity::Right,
            InfixOp::Binary(_) | InfixOp::Logic(_) => Associativity::Left,
        }
    }

    /// Returns the `InfixOp`'s [`Associativity`].
    #[verifier::when_used_as_spec(spec_associativity)]
    pub fn associativity(self) -> (associativity: Associativity)
        ensures
            associativity == self.spec_associativity(),
    {
        match self {
            InfixOp::Assign => Associativity::Right,
            InfixOp::Binary(_) | InfixOp::Logic(_) => Associativity::Left,
        }
    }

    /// The least precedence that the `InfixOp`'s right operand may bind
    /// with: its own for a right-associative operator, one more for a
    /// left-associative one.
    pub open spec fn spec_rhs_precedence(self) -> u8 {
        match self.spec_associativity() {
            Associativity::Left => (self.spec_precedence() + 1) as u8,
            Associativity::Right => self.spec_precedence(),
        }
    }
}

/// Binary and logical operators are left-associative: their right operand
/// binds one level tighter than they do. Assignment is right-associative:
/// its right operand may be another assignment. Assignment binds loosest,
/// then `or`, `and`, equality, comparison, sums, and terms tightest.
pub proof fn law_precedence_and_associativity(op: InfixOp)
    ensures
        op.spec_associativity() == Associativity::Left ==> op.spec_rhs_precedence() == op.spec_precedence() + 1,
        op == InfixOp::Assign <==> op.spec_associativity() == Associativity::Right,
        op == InfixOp::Assign ==> op.spec_rhs_precedence() == op.spec_precedence(),
        op.spec_precedence() <= 6,
        op.spec_precedence() == 0 <==> op == InfixOp::Assign,
        InfixOp::Logic(LogicOp::Or).spec_precedence() < InfixOp::Logic(LogicOp::And).spec_precedence(),
        InfixOp::Logic(LogicOp::And).spec_precedence() < InfixOp::Binary(BinOp::Equal).spec_precedence(),
        InfixOp::Binary(BinOp::Equal).spec_precedence() < InfixOp::Binary(BinOp::Less).spec_precedence(),
        InfixOp::Binary(BinOp::Less).spec_precedence() < InfixOp::Binary(BinOp::Add).spec_precedence(),
        InfixOp::Binary(BinOp::Add).spec_precedence() < InfixOp::Binary(BinOp::Multiply).spec_precedence(),
{
}

/// The precedence levels of the infix operators, from loosest to tightest:
/// assignment; `or`; `and`; the equality operators `==` and `!=`; the
/// comparisons `>`, `>=`, `<` and `<=`; the sums `+` and `-`; the terms `*`
/// and `/`. Operators of one level share its precedence.
pub proof fn law_precedence_levels()
    ensures
        InfixOp::Binary(BinOp::Add).spec_precedence() == InfixOp::Binary(BinOp::Subtract).spec_precedence(),
        InfixOp::Binary(BinOp::Multiply).spec_precedence() == InfixOp::Binary(BinOp::Divide).spec_precedence(),
        InfixOp::Binary(BinOp::Equal).spec_precedence() == InfixOp::Binary(BinOp::NotEqual).spec_precedence(),
        InfixOp::Binary(BinOp::Greater).spec_precedence() == InfixOp::Binary(BinOp::Less).spec_precedence(),
        InfixOp::Binary(BinOp::GreaterEqual).spec_precedence() == InfixOp::Binary(BinOp::Less).spec_precedence(),
        InfixOp::Binary(BinOp::LessEqual).spec_precedence() == InfixOp::Binary(BinOp::Less).spec_precedence(),
        InfixOp::Assign.spec_precedence() < InfixOp::Logic(LogicOp::Or).spec_precedence(),
        InfixOp::Logic(LogicOp::Or).spec_precedence() < InfixOp::Logic(LogicOp::And).spec_precedence(),
        InfixOp::Logic(LogicOp::And).spec_precedence() < InfixOp::Binary(BinOp::Equal).spec_precedence(),
        InfixOp::Binary(BinOp::Equal).spec_precedence() < InfixOp::Binary(BinOp::Less).spec_precedence(),
        InfixOp::Binary(BinOp::Less).spec_precedence() < InfixOp::Binary(BinOp::Add).spec_precedence(),
        InfixOp::Binary(BinOp::Add).spec_precedence() < InfixOp::Binary(BinOp::Multiply).spec_precedence(),
{
}

/// The tokens of the infix operators: `=` assigns; `or` and `and` are
/// logical; `==`, `!=`, `>`, `>=`, `<`, `<=`, `+`, `-`, `*` and `/` are
/// the binary operators they spell. No other token is an infix operator.
pub proof fn law_operator_tokens(token_type: TokenType)
    ensures
        InfixOp::spec_from_token_type(TokenType::Equals) == Some(InfixOp::Assign),
        InfixOp::spec_from_token_type(TokenType::Or) == Some(InfixOp::Logic(LogicOp::Or)),
        InfixOp::spec_from_token_type(TokenType::And) == Some(InfixOp::Logic(LogicOp::And)),
        InfixOp::spec_from_token_type(TokenType::EqualsEquals) == Some(InfixOp::Binary(BinOp::Equal)),
        InfixOp::spec_from_token_type(TokenType::BangEquals) == Some(InfixOp::Binary(BinOp::NotEqual)),
        InfixOp::spec_from_token_type(TokenType::Greater) == Some(InfixOp::Binary(BinOp::Greater)),
        InfixOp::spec_from_token_type(TokenType::GreaterEquals) == Some(InfixOp::Binary(BinOp::GreaterEqual)),
        InfixOp::spec_from_token_type(TokenType::Less) == Some(InfixOp::Binary(BinOp::Less)),
        InfixOp::spec_from_token_type(TokenType::LessEquals) == Some(InfixOp::Binary(BinOp::LessEqual)),
        InfixOp::spec_from_token_type(TokenType::Plus) == Some(InfixOp::Binary(BinOp::Add)),
        InfixOp::spec_from_token_type(TokenType::Minus) == Some(InfixOp::Binary(BinOp::Subtract)),
        InfixOp::spec_from_token_type(TokenType::Star) == Some(InfixOp::Binary(BinOp::Multiply)),
        InfixOp::spec_from_token_type(TokenType::Slash) == Some(InfixOp::Binary(BinOp::Divide)),
        !(token_type == TokenType::Equals || token_type == TokenType::Or || token_type == TokenType::And || token_type
            == TokenType::EqualsEquals || token_type == TokenType::BangEquals || token_type == TokenType::Greater
            || token_type == TokenType::GreaterEquals || token_type == TokenType::Less || token_type
            == TokenType::LessEquals || token_type == TokenType::Plus || token_type == TokenType::Minus || token_type
            == TokenType::Star || token_type == TokenType::Slash) ==> InfixOp::spec_from_token_type(token_type) is None,
{
}

} // verus!
