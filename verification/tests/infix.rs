use lox::ast::{BinOp, LogicOp};
use lox::parse::infix::{Associativity, InfixOp};
use lox::tokens::TokenType;

#[test]
fn infix_operators_of_token_types() {
    assert_eq!(InfixOp::from_token_type(TokenType::Minus), Some(InfixOp::Binary(BinOp::Subtract)));
    assert_eq!(InfixOp::from_token_type(TokenType::Equals), Some(InfixOp::Assign));
    assert_eq!(InfixOp::from_token_type(TokenType::Or), Some(InfixOp::Logic(LogicOp::Or)));
    assert_eq!(InfixOp::from_token_type(TokenType::Bang), None);
    assert_eq!(InfixOp::from_token_type(TokenType::Semi), None);
}

#[test]
fn precedence_and_associativity() {
    assert_eq!(InfixOp::Assign.precedence(), 0);
    assert_eq!(InfixOp::Logic(LogicOp::Or).precedence(), 1);
    assert_eq!(InfixOp::Logic(LogicOp::And).precedence(), 2);
    assert_eq!(InfixOp::Binary(BinOp::NotEqual).precedence(), 3);
    assert_eq!(InfixOp::Binary(BinOp::GreaterEqual).precedence(), 4);
    assert_eq!(InfixOp::Binary(BinOp::Subtract).precedence(), 5);
    assert_eq!(InfixOp::Binary(BinOp::Divide).precedence(), 6);
    assert_eq!(InfixOp::Assign.associativity(), Associativity::Right);
    assert_eq!(InfixOp::Binary(BinOp::Add).associativity(), Associativity::Left);
    assert_eq!(InfixOp::Logic(LogicOp::And).associativity(), Associativity::Left);
}
