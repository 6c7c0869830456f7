//! Full declaration flows: qualifiers, type specifier and declaration
//! building chained as the surrounding grammar drives them, plus the token
//! cursor's own behavior.

use glsl_front::ast::{GlobalOrConstant, QualifierKey, QualifierValue, StorageQualifier};
use glsl_front::context::Context;
use glsl_front::error::{Error, ErrorKind, SemanticErrorKind};
use glsl_front::ir::{
    AddressSpace, ResourceBinding, ScalarKind, ShaderStage, Type, TypeInner, VectorSize,
};
use glsl_front::parser::{Parser, ParsingContext};
use glsl_front::span::Span;
use glsl_front::token::{ExpectedToken, Token, TokenValue};

fn tok(value: TokenValue) -> Token {
    Token { value, meta: Span { start: 0, end: 0 } }
}

fn vec4_type() -> Type {
    Type {
        name: Some("vec4".to_string()),
        inner: TypeInner::Vector { size: VectorSize::Quad, kind: ScalarKind::Float, width: 4 },
    }
}

#[test]
fn uniform_block_declaration_end_to_end() {
    // layout(binding = 2, set = 1) uniform vec4 color;
    let mut parser = Parser::new(ShaderStage::Fragment);
    let mut ctx = Context::new();
    let mut cursor = ParsingContext::new(vec![
        tok(TokenValue::Layout),
        tok(TokenValue::LeftParen),
        tok(TokenValue::Identifier("binding".to_string())),
        tok(TokenValue::Assign),
        tok(TokenValue::UintConstant(2)),
        tok(TokenValue::Comma),
        tok(TokenValue::Identifier("set".to_string())),
        tok(TokenValue::Assign),
        tok(TokenValue::UintConstant(1)),
        tok(TokenValue::RightParen),
        tok(TokenValue::Uniform),
        tok(TokenValue::TypeName(vec4_type())),
        tok(TokenValue::Identifier("color".to_string())),
        tok(TokenValue::Semicolon),
    ]);
    let qualifiers = cursor.parse_type_qualifiers(&mut parser).unwrap();
    let (ty, meta) = cursor.parse_type_non_void(&mut parser).unwrap();
    let (name, _) = cursor.expect_ident().unwrap();
    let built = parser
        .add_global_var(
            &mut ctx,
            glsl_front::ast::VarDeclaration {
                qualifiers,
                ty,
                name: Some(name),
                init: None,
                meta,
            },
        )
        .unwrap();
    assert_eq!(parser.errors.len(), 0);
    match built {
        GlobalOrConstant::Global(handle) => {
            let var = &parser.module.global_variables[handle.index];
            assert_eq!(var.name.as_deref(), Some("color"));
            assert_eq!(var.space, AddressSpace::Uniform);
            assert_eq!(var.binding, Some(ResourceBinding { group: 1, binding: 2 }));
        }
        other => panic!("expected a global, got {:?}", other),
    }
    assert!(parser
        .lookup_variable(&mut ctx, "color", Span::undefined())
        .is_some());
    // Only the trailing semicolon is left for the statement grammar.
    assert_eq!(cursor.tokens.len(), 1);
}

#[test]
fn push_constant_with_value_reports_and_stays_uniform() {
    let mut parser = Parser::new(ShaderStage::Vertex);
    let mut ctx = Context::new();
    let ty = parser.module.insert_type(vec4_type());
    let mut qualifiers = glsl_front::ast::TypeQualifiers::new();
    qualifiers.storage = (
        StorageQualifier::AddressSpace(AddressSpace::Uniform),
        Span::undefined(),
    );
    qualifiers.layout_qualifiers.insert(
        QualifierKey::String("push_constant".to_string()),
        QualifierValue::Uint(1),
        Span::undefined(),
    );
    qualifiers.layout_qualifiers.insert(
        QualifierKey::String("binding".to_string()),
        QualifierValue::Uint(0),
        Span::undefined(),
    );
    parser
        .add_global_var(
            &mut ctx,
            glsl_front::ast::VarDeclaration {
                qualifiers,
                ty,
                name: Some("u".to_string()),
                init: None,
                meta: Span::undefined(),
            },
        )
        .unwrap();
    // The flag carried a value: reported, dropped, and no reclassification.
    assert_eq!(parser.errors.len(), 1);
    assert!(matches!(
        parser.errors[0].kind,
        ErrorKind::SemanticError(SemanticErrorKind::QualifierTakesNoValue)
    ));
    assert_eq!(parser.module.global_variables[0].space, AddressSpace::Uniform);
}

#[test]
fn expect_ident_rejects_other_tokens() {
    let mut cursor = ParsingContext::new(vec![tok(TokenValue::Comma)]);
    let err = cursor.expect_ident().unwrap_err();
    match err.kind {
        ErrorKind::InvalidToken(found, expected) => {
            assert_eq!(found, TokenValue::Comma);
            assert_eq!(expected, ExpectedToken::Identifier);
        }
        other => panic!("expected invalid token, got {:?}", other),
    }
}

#[test]
fn bump_if_consumes_only_matches() {
    let mut cursor = ParsingContext::new(vec![tok(TokenValue::Comma), tok(TokenValue::Assign)]);
    assert!(cursor.bump_if(TokenValue::Assign).is_none());
    assert_eq!(cursor.tokens.len(), 2);
    assert!(cursor.bump_if(TokenValue::Comma).is_some());
    assert_eq!(cursor.tokens.len(), 1);
}

#[test]
fn parse_uint_constant_reads_one_literal() {
    let mut cursor = ParsingContext::new(vec![Token {
        value: TokenValue::UintConstant(42),
        meta: Span { start: 3, end: 5 },
    }]);
    let (value, meta) = cursor.parse_uint_constant().unwrap();
    assert_eq!(value, 42);
    assert_eq!(meta, Span { start: 3, end: 5 });
    let err = cursor.parse_uint_constant().unwrap_err();
    assert!(matches!(err.kind, ErrorKind::EndOfFile));
}

#[test]
fn errors_accumulate_across_declarations() {
    // Several independent problems in one unit all survive.
    let mut parser = Parser::new(ShaderStage::Vertex);
    let mut ctx = Context::new();
    let ty = parser.module.insert_type(vec4_type());
    let mut cursor = ParsingContext::new(vec![tok(TokenValue::In), tok(TokenValue::Out)]);
    let qualifiers = cursor.parse_type_qualifiers(&mut parser).unwrap();
    assert_eq!(parser.errors.len(), 1);
    parser
        .add_global_var(
            &mut ctx,
            glsl_front::ast::VarDeclaration {
                qualifiers,
                ty,
                name: Some("a".to_string()),
                init: None,
                meta: Span::undefined(),
            },
        )
        .unwrap();
    let mut storage_quals = glsl_front::ast::TypeQualifiers::new();
    storage_quals.storage = (
        StorageQualifier::AddressSpace(AddressSpace::Storage {
            access: glsl_front::ir::STORAGE_ACCESS_ALL,
        }),
        Span::undefined(),
    );
    parser
        .add_global_var(
            &mut ctx,
            glsl_front::ast::VarDeclaration {
                qualifiers: storage_quals,
                ty,
                name: Some("b".to_string()),
                init: None,
                meta: Span::undefined(),
            },
        )
        .unwrap();
    let kinds: Vec<&Error> = parser.errors.iter().collect();
    assert_eq!(kinds.len(), 2);
    assert!(matches!(
        kinds[0].kind,
        ErrorKind::SemanticError(SemanticErrorKind::ExtraStorageQualifier)
    ));
    assert!(matches!(
        kinds[1].kind,
        ErrorKind::SemanticError(SemanticErrorKind::MissingBindingLayout)
    ));
}
