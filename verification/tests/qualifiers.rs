//! Qualifier accumulation: duplicate detection with last-wins overwrites,
//! memory-access merging, and layout qualifier id lists.

use glsl_front::ast::{QualifierKey, QualifierValue, StorageQualifier, TypeQualifiers};
use glsl_front::error::{Error, ErrorKind, SemanticErrorKind};
use glsl_front::ir::{
    AddressSpace, Interpolation, Precision, Sampling, ShaderStage, StructLayout,
    STORAGE_ACCESS_ALL, STORAGE_ACCESS_STORE,
};
use glsl_front::parser::{Parser, ParsingContext};
use glsl_front::span::Span;
use glsl_front::token::{Token, TokenValue};

fn tok(value: TokenValue) -> Token {
    Token { value, meta: Span { start: 0, end: 0 } }
}

fn accumulate(tokens: Vec<Token>) -> (Parser, TypeQualifiers) {
    let mut parser = Parser::new(ShaderStage::Vertex);
    let mut cursor = ParsingContext::new(tokens);
    let qualifiers = cursor.parse_type_qualifiers(&mut parser).unwrap();
    (parser, qualifiers)
}

#[test]
fn no_qualifiers_yields_defaults() {
    let (parser, q) = accumulate(vec![tok(TokenValue::Semicolon)]);
    assert_eq!(
        q.storage.0,
        StorageQualifier::AddressSpace(AddressSpace::Function)
    );
    assert!(q.interpolation.is_none());
    assert!(q.sampling.is_none());
    assert!(q.precision.is_none());
    assert!(q.storage_access.is_none());
    assert_eq!(q.layout_qualifiers.entries.len(), 0);
    assert_eq!(parser.errors.len(), 0);
}

#[test]
fn storage_keywords_map_to_their_qualifiers() {
    let (_, q) = accumulate(vec![tok(TokenValue::In)]);
    assert_eq!(q.storage.0, StorageQualifier::Input);
    let (_, q) = accumulate(vec![tok(TokenValue::Out)]);
    assert_eq!(q.storage.0, StorageQualifier::Output);
    let (_, q) = accumulate(vec![tok(TokenValue::Const)]);
    assert_eq!(q.storage.0, StorageQualifier::Const);
    let (_, q) = accumulate(vec![tok(TokenValue::Uniform)]);
    assert_eq!(
        q.storage.0,
        StorageQualifier::AddressSpace(AddressSpace::Uniform)
    );
    let (_, q) = accumulate(vec![tok(TokenValue::Shared)]);
    assert_eq!(
        q.storage.0,
        StorageQualifier::AddressSpace(AddressSpace::WorkGroup)
    );
    let (_, q) = accumulate(vec![tok(TokenValue::Buffer)]);
    assert_eq!(
        q.storage.0,
        StorageQualifier::AddressSpace(AddressSpace::Storage { access: STORAGE_ACCESS_ALL })
    );
}

#[test]
fn second_storage_qualifier_reports_once_and_last_wins() {
    let (parser, q) = accumulate(vec![tok(TokenValue::In), tok(TokenValue::Out)]);
    assert_eq!(q.storage.0, StorageQualifier::Output);
    assert_eq!(parser.errors.len(), 1);
    assert!(matches!(
        parser.errors[0].kind,
        ErrorKind::SemanticError(SemanticErrorKind::ExtraStorageQualifier)
    ));
}

#[test]
fn second_interpolation_reports_once_and_last_wins() {
    let (parser, q) = accumulate(vec![
        tok(TokenValue::Interpolation(Interpolation::Perspective)),
        tok(TokenValue::Interpolation(Interpolation::Flat)),
    ]);
    assert_eq!(q.interpolation.map(|(i, _)| i), Some(Interpolation::Flat));
    assert_eq!(parser.errors.len(), 1);
    assert!(matches!(
        parser.errors[0].kind,
        ErrorKind::SemanticError(SemanticErrorKind::ExtraInterpolationQualifier)
    ));
}

#[test]
fn second_sampling_reports_once_and_last_wins() {
    let (parser, q) = accumulate(vec![
        tok(TokenValue::Sampling(Sampling::Centroid)),
        tok(TokenValue::Sampling(Sampling::Sample)),
    ]);
    assert_eq!(q.sampling.map(|(s, _)| s), Some(Sampling::Sample));
    assert_eq!(parser.errors.len(), 1);
    assert!(matches!(
        parser.errors[0].kind,
        ErrorKind::SemanticError(SemanticErrorKind::ExtraSamplingQualifier)
    ));
}

#[test]
fn second_precision_reports_once_and_last_wins() {
    let (parser, q) = accumulate(vec![
        tok(TokenValue::PrecisionQualifier(Precision::High)),
        tok(TokenValue::PrecisionQualifier(Precision::Low)),
    ]);
    assert_eq!(q.precision.map(|(p, _)| p), Some(Precision::Low));
    assert_eq!(parser.errors.len(), 1);
    assert!(matches!(
        parser.errors[0].kind,
        ErrorKind::SemanticError(SemanticErrorKind::ExtraPrecisionQualifier)
    ));
}

#[test]
fn repeated_memory_flag_reports_once_and_merges_idempotently() {
    let (parser, q) = accumulate(vec![
        tok(TokenValue::StorageAccess(STORAGE_ACCESS_STORE)),
        tok(TokenValue::StorageAccess(STORAGE_ACCESS_STORE)),
    ]);
    assert_eq!(q.storage_access.map(|(a, _)| a), Some(STORAGE_ACCESS_STORE));
    assert_eq!(parser.errors.len(), 1);
    assert!(matches!(
        parser.errors[0].kind,
        ErrorKind::SemanticError(SemanticErrorKind::RepeatedMemoryQualifier)
    ));
}

#[test]
fn distinct_memory_flags_merge_without_error() {
    let (parser, q) = accumulate(vec![
        tok(TokenValue::StorageAccess(1)),
        tok(TokenValue::StorageAccess(2)),
    ]);
    assert_eq!(q.storage_access.map(|(a, _)| a), Some(3));
    assert_eq!(parser.errors.len(), 0);
}

#[test]
fn restrict_is_accepted_and_discarded() {
    let (parser, q) = accumulate(vec![tok(TokenValue::Restrict), tok(TokenValue::In)]);
    assert_eq!(q.storage.0, StorageQualifier::Input);
    assert_eq!(parser.errors.len(), 0);
}

#[test]
fn layout_list_collects_key_value_pairs() {
    let (parser, q) = accumulate(vec![
        tok(TokenValue::Layout),
        tok(TokenValue::LeftParen),
        tok(TokenValue::Identifier("binding".to_string())),
        tok(TokenValue::Assign),
        tok(TokenValue::UintConstant(2)),
        tok(TokenValue::Comma),
        tok(TokenValue::Identifier("set".to_string())),
        tok(TokenValue::Assign),
        tok(TokenValue::UintConstant(1)),
        tok(TokenValue::RightParen),
        tok(TokenValue::Uniform),
    ]);
    assert_eq!(parser.errors.len(), 0);
    assert_eq!(
        q.storage.0,
        StorageQualifier::AddressSpace(AddressSpace::Uniform)
    );
    assert_eq!(q.layout_qualifiers.entries.len(), 2);
    assert_eq!(
        q.layout_qualifiers.entries[0].key,
        QualifierKey::String("binding".to_string())
    );
    assert_eq!(q.layout_qualifiers.entries[0].value, QualifierValue::Uint(2));
    assert_eq!(
        q.layout_qualifiers.entries[1].key,
        QualifierKey::String("set".to_string())
    );
    assert_eq!(q.layout_qualifiers.entries[1].value, QualifierValue::Uint(1));
}

#[test]
fn layout_std140_and_std430_share_the_structured_key() {
    let (_, q) = accumulate(vec![
        tok(TokenValue::Layout),
        tok(TokenValue::LeftParen),
        tok(TokenValue::Identifier("std140".to_string())),
        tok(TokenValue::RightParen),
    ]);
    assert_eq!(q.layout_qualifiers.entries.len(), 1);
    assert_eq!(q.layout_qualifiers.entries[0].key, QualifierKey::Layout);
    assert_eq!(
        q.layout_qualifiers.entries[0].value,
        QualifierValue::Layout(StructLayout::Std140)
    );
    // A later std430 overwrites the stored layout: the last value wins.
    let (_, q) = accumulate(vec![
        tok(TokenValue::Layout),
        tok(TokenValue::LeftParen),
        tok(TokenValue::Identifier("std140".to_string())),
        tok(TokenValue::Comma),
        tok(TokenValue::Identifier("std430".to_string())),
        tok(TokenValue::RightParen),
    ]);
    assert_eq!(q.layout_qualifiers.entries.len(), 1);
    assert_eq!(
        q.layout_qualifiers.entries[0].value,
        QualifierValue::Layout(StructLayout::Std430)
    );
}

#[test]
fn layout_bare_identifier_is_a_valueless_flag() {
    let (_, q) = accumulate(vec![
        tok(TokenValue::Layout),
        tok(TokenValue::LeftParen),
        tok(TokenValue::Identifier("push_constant".to_string())),
        tok(TokenValue::RightParen),
    ]);
    assert_eq!(q.layout_qualifiers.entries.len(), 1);
    assert_eq!(q.layout_qualifiers.entries[0].value, QualifierValue::NoValue);
}

#[test]
fn malformed_layout_id_recovers_with_zero() {
    // A failed constant expression after `=` falls back to 0 and parsing of
    // the list goes on past the comma.
    let (parser, q) = accumulate(vec![
        tok(TokenValue::Layout),
        tok(TokenValue::LeftParen),
        tok(TokenValue::Identifier("binding".to_string())),
        tok(TokenValue::Assign),
        tok(TokenValue::Semicolon),
        tok(TokenValue::Comma),
        tok(TokenValue::Identifier("set".to_string())),
        tok(TokenValue::Assign),
        tok(TokenValue::UintConstant(1)),
        tok(TokenValue::RightParen),
    ]);
    assert_eq!(parser.errors.len(), 1);
    assert!(matches!(parser.errors[0].kind, ErrorKind::InvalidToken(..)));
    assert_eq!(q.layout_qualifiers.entries.len(), 2);
    assert_eq!(q.layout_qualifiers.entries[0].value, QualifierValue::Uint(0));
    assert_eq!(q.layout_qualifiers.entries[1].value, QualifierValue::Uint(1));
}

#[test]
fn layout_non_identifier_id_is_recoverable() {
    let (parser, q) = accumulate(vec![
        tok(TokenValue::Layout),
        tok(TokenValue::LeftParen),
        tok(TokenValue::UintConstant(7)),
        tok(TokenValue::RightParen),
    ]);
    assert_eq!(parser.errors.len(), 1);
    assert!(matches!(parser.errors[0].kind, ErrorKind::InvalidToken(..)));
    assert_eq!(q.layout_qualifiers.entries.len(), 0);
}

#[test]
fn accumulator_stops_at_first_non_qualifier() {
    let mut parser = Parser::new(ShaderStage::Vertex);
    let mut cursor = ParsingContext::new(vec![
        tok(TokenValue::Const),
        tok(TokenValue::Identifier("x".to_string())),
    ]);
    let q = cursor.parse_type_qualifiers(&mut parser).unwrap();
    assert_eq!(q.storage.0, StorageQualifier::Const);
    assert_eq!(cursor.tokens.len(), 1);
    assert!(matches!(cursor.tokens[0].value, TokenValue::Identifier(_)));
}

#[test]
fn peek_type_qualifier_recognizes_keywords() {
    let parser = Parser::new(ShaderStage::Vertex);
    let qualifier = ParsingContext::new(vec![tok(TokenValue::Buffer)]);
    assert!(qualifier.peek_type_qualifier(&parser));
    let layout = ParsingContext::new(vec![tok(TokenValue::Layout)]);
    assert!(layout.peek_type_qualifier(&parser));
    let other = ParsingContext::new(vec![tok(TokenValue::Void)]);
    assert!(!other.peek_type_qualifier(&parser));
    let empty = ParsingContext::new(Vec::new());
    assert!(!empty.peek_type_qualifier(&parser));
}

#[test]
fn uint_layout_qualifier_claims_and_reports_shape() {
    let mut q = TypeQualifiers::new();
    q.layout_qualifiers.insert(
        QualifierKey::String("binding".to_string()),
        QualifierValue::NoValue,
        Span { start: 3, end: 9 },
    );
    let mut errors: Vec<Error> = Vec::new();
    let claimed = q.uint_layout_qualifier("binding", &mut errors);
    assert_eq!(claimed, None);
    assert_eq!(errors.len(), 1);
    assert!(matches!(
        errors[0].kind,
        ErrorKind::SemanticError(SemanticErrorKind::QualifierExpectsUint)
    ));
    // The claimed pair is gone either way.
    assert_eq!(q.layout_qualifiers.entries.len(), 0);
}
