//! Tokens handed over by the lexer layer, and the descriptions of what was
//! expected that invalid-token diagnostics carry.

use vstd::prelude::*;

use crate::ir::{Interpolation, Precision, Sampling, StorageAccess, Type};
use crate::span::Span;

verus! {

#[derive(Clone, PartialEq, Eq, Debug)]
pub enum TokenValue {
    Identifier(String),
    TypeName(Type),
    UintConstant(u64),
    Void,
    Struct,
    Const,
    In,
    Out,
    Uniform,
    Shared,
    Buffer,
    Restrict,
    Layout,
    Interpolation(Interpolation),
    Sampling(Sampling),
    PrecisionQualifier(Precision),
    StorageAccess(StorageAccess),
    LeftBrace,
    RightBrace,
    LeftParen,
    RightParen,
    LeftBracket,
    RightBracket,
    Comma,
    Assign,
    Semicolon,
}

#[derive(Clone, PartialEq, Eq, Debug)]
pub struct Token {
    pub value: TokenValue,
    pub meta: Span,
}

/// What a failed token expectation was looking for. `TypeSpecifier` stands
/// for the alternatives at the head of a type specifier: `void`, `struct`,
/// or a type name.
#[derive(Clone, PartialEq, Eq, Debug)]
pub enum ExpectedToken {
    Token(TokenValue),
    TypeName,
    Identifier,
    UintConstant,
    TypeSpecifier,
}

/// Equality of token values, comparing identifier characters and type names
/// structurally. `bump_if` and `expect` match tokens by this relation.
pub open spec fn token_value_eq(a: TokenValue, b: TokenValue) -> bool {
    match (a, b) {
        (TokenValue::Identifier(x), TokenValue::Identifier(y)) => x@ == y@,
        (TokenValue::TypeName(x), TokenValue::TypeName(y)) => crate::ir::type_eq(x, y),
        (TokenValue::UintConstant(x), TokenValue::UintConstant(y)) => x == y,
        (TokenValue::Void, TokenValue::Void) => true,
        (TokenValue::Struct, TokenValue::Struct) => true,
        (TokenValue::Const, TokenValue::Const) => true,
        (TokenValue::In, TokenValue::In) => true,
        (TokenValue::Out, TokenValue::Out) => true,
        (TokenValue::Uniform, TokenValue::Uniform) => true,
        (TokenValue::Shared, TokenValue::Shared) => true,
        (TokenValue::Buffer, TokenValue::Buffer) => true,
        (TokenValue::Restrict, TokenValue::Restrict) => true,
        (TokenValue::Layout, TokenValue::Layout) => true,
        (TokenValue::Interpolation(x), TokenValue::Interpolation(y)) => x == y,
        (TokenValue::Sampling(x), TokenValue::Sampling(y)) => x == y,
        (TokenValue::PrecisionQualifier(x), TokenValue::PrecisionQualifier(y)) => x == y,
        (TokenValue::StorageAccess(x), TokenValue::StorageAccess(y)) => x == y,
        (TokenValue::LeftBrace, TokenValue::LeftBrace) => true,
        (TokenValue::RightBrace, TokenValue::RightBrace) => true,
        (TokenValue::LeftParen, TokenValue::LeftParen) => true,
        (TokenValue::RightParen, TokenValue::RightParen) => true,
        (TokenValue::LeftBracket, TokenValue::LeftBracket) => true,
        (TokenValue::RightBracket, TokenValue::RightBracket) => true,
        (TokenValue::Comma, TokenValue::Comma) => true,
        (TokenValue::Assign, TokenValue::Assign) => true,
        (TokenValue::Semicolon, TokenValue::Semicolon) => true,
        _ => false,
    }
}

/// Executable comparison deciding `token_value_eq`.
pub fn values_equal(a: &TokenValue, b: &TokenValue) -> (r: bool)
    ensures
        r == token_value_eq(*a, *b),
{
    match (a, b) {
        (TokenValue::Identifier(x), TokenValue::Identifier(y)) => <String as PartialEq>::eq(x, y),
        (TokenValue::TypeName(x), TokenValue::TypeName(y)) => crate::module::types_equal(x, y),
        (TokenValue::UintConstant(x), TokenValue::UintConstant(y)) => *x == *y,
        (TokenValue::Void, TokenValue::Void) => true,
        (TokenValue::Struct, TokenValue::Struct) => true,
        (TokenValue::Const, TokenValue::Const) => true,
        (TokenValue::In, TokenValue::In) => true,
        (TokenValue::Out, TokenValue::Out) => true,
        (TokenValue::Uniform, TokenValue::Uniform) => true,
        (TokenValue::Shared, TokenValue::Shared) => true,
        (TokenValue::Buffer, TokenValue::Buffer) => true,
        (TokenValue::Restrict, TokenValue::Restrict) => true,
        (TokenValue::Layout, TokenValue::Layout) => true,
        (TokenValue::Interpolation(x), TokenValue::Interpolation(y)) => *x == *y,
        (TokenValue::Sampling(x), TokenValue::Sampling(y)) => *x == *y,
        (TokenValue::PrecisionQualifier(x), TokenValue::PrecisionQualifier(y)) => *x == *y,
        (TokenValue::StorageAccess(x), TokenValue::StorageAccess(y)) => *x == *y,
        (TokenValue::LeftBrace, TokenValue::LeftBrace) => true,
        (TokenValue::RightBrace, TokenValue::RightBrace) => true,
        (TokenValue::LeftParen, TokenValue::LeftParen) => true,
        (TokenValue::RightParen, TokenValue::RightParen) => true,
        (TokenValue::LeftBracket, TokenValue::LeftBracket) => true,
        (TokenValue::RightBracket, TokenValue::RightBracket) => true,
        (TokenValue::Comma, TokenValue::Comma) => true,
        (TokenValue::Assign, TokenValue::Assign) => true,
        (TokenValue::Semicolon, TokenValue::Semicolon) => true,
        _ => false,
    }
}

} // verus!
