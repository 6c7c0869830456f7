//! Type-specifier parsing: interning, array specifiers, struct declarations
//! and the fatal errors of the type resolver.

use glsl_front::error::{ErrorKind, SemanticErrorKind};
use glsl_front::ir::{
    ArraySize, Constant, ConstantInner, ScalarKind, ScalarValue, ShaderStage, Type, TypeInner,
    VectorSize,
};
use glsl_front::parser::{Parser, ParsingContext};
use glsl_front::span::Span;
use glsl_front::token::{ExpectedToken, Token, TokenValue};

fn sp(start: u32, end: u32) -> Span {
    Span { start, end }
}

fn tok(value: TokenValue) -> Token {
    Token { value, meta: Span { start: 0, end: 0 } }
}

fn vec4_type() -> Type {
    Type {
        name: Some("vec4".to_string()),
        inner: TypeInner::Vector { size: VectorSize::Quad, kind: ScalarKind::Float, width: 4 },
    }
}

fn int_type() -> Type {
    Type {
        name: Some("int".to_string()),
        inner: TypeInner::Scalar { kind: ScalarKind::Sint, width: 4 },
    }
}

#[test]
fn parse_type_void_gives_no_handle() {
    let mut parser = Parser::new(ShaderStage::Vertex);
    let mut cursor = ParsingContext::new(vec![tok(TokenValue::Void)]);
    let (handle, _) = cursor.parse_type(&mut parser).unwrap();
    assert!(handle.is_none());
    assert_eq!(parser.module.types.len(), 0);
}

#[test]
fn parse_type_interns_same_name_twice() {
    let mut parser = Parser::new(ShaderStage::Vertex);
    let mut cursor = ParsingContext::new(vec![
        tok(TokenValue::TypeName(vec4_type())),
        tok(TokenValue::TypeName(vec4_type())),
    ]);
    let (first, _) = cursor.parse_type(&mut parser).unwrap();
    let (second, _) = cursor.parse_type(&mut parser).unwrap();
    assert_eq!(first.unwrap(), second.unwrap());
    assert_eq!(parser.module.types.len(), 1);
}

#[test]
fn parse_type_distinct_names_distinct_handles() {
    let mut parser = Parser::new(ShaderStage::Vertex);
    let mut cursor = ParsingContext::new(vec![
        tok(TokenValue::TypeName(vec4_type())),
        tok(TokenValue::TypeName(int_type())),
    ]);
    let (first, _) = cursor.parse_type(&mut parser).unwrap();
    let (second, _) = cursor.parse_type(&mut parser).unwrap();
    assert_ne!(first.unwrap(), second.unwrap());
    assert_eq!(parser.module.types.len(), 2);
}

#[test]
fn anonymous_structs_always_fresh() {
    let mut parser = Parser::new(ShaderStage::Vertex);
    let anon = Type { name: None, inner: TypeInner::Struct { members: Vec::new(), span: 0 } };
    let first = parser.module.insert_type(anon.clone());
    let second = parser.module.insert_type(anon);
    assert_ne!(first, second);
    assert_eq!(parser.module.types.len(), 2);
}

#[test]
fn parse_type_unknown_identifier_fails() {
    let mut parser = Parser::new(ShaderStage::Vertex);
    let mut cursor = ParsingContext::new(vec![tok(TokenValue::Identifier("foo".to_string()))]);
    let err = cursor.parse_type(&mut parser).unwrap_err();
    match err.kind {
        ErrorKind::UnknownType(name) => assert_eq!(name, "foo"),
        other => panic!("expected unknown type, got {:?}", other),
    }
}

#[test]
fn parse_type_invalid_token_lists_alternatives() {
    let mut parser = Parser::new(ShaderStage::Vertex);
    let mut cursor = ParsingContext::new(vec![tok(TokenValue::Comma)]);
    let err = cursor.parse_type(&mut parser).unwrap_err();
    match err.kind {
        ErrorKind::InvalidToken(found, expected) => {
            assert_eq!(found, TokenValue::Comma);
            assert_eq!(expected, ExpectedToken::TypeSpecifier);
        }
        other => panic!("expected invalid token, got {:?}", other),
    }
}

#[test]
fn parse_type_non_void_rejects_void() {
    let mut parser = Parser::new(ShaderStage::Vertex);
    let mut cursor = ParsingContext::new(vec![tok(TokenValue::Void)]);
    let err = cursor.parse_type_non_void(&mut parser).unwrap_err();
    assert!(matches!(
        err.kind,
        ErrorKind::SemanticError(SemanticErrorKind::VoidType)
    ));
}

#[test]
fn parse_struct_registers_name_and_members() {
    let mut parser = Parser::new(ShaderStage::Vertex);
    let mut cursor = ParsingContext::new(vec![
        tok(TokenValue::Struct),
        tok(TokenValue::Identifier("Light".to_string())),
        tok(TokenValue::LeftBrace),
        tok(TokenValue::TypeName(vec4_type())),
        tok(TokenValue::Identifier("color".to_string())),
        tok(TokenValue::Semicolon),
        tok(TokenValue::TypeName(int_type())),
        tok(TokenValue::Identifier("kind".to_string())),
        tok(TokenValue::Semicolon),
        tok(TokenValue::RightBrace),
    ]);
    let (handle, _) = cursor.parse_type(&mut parser).unwrap();
    let handle = handle.unwrap();
    assert_eq!(parser.lookup_type_get("Light"), Some(handle));
    match &parser.module.types[handle.index].inner {
        TypeInner::Struct { members, span } => {
            assert_eq!(members.len(), 2);
            assert_eq!(members[0].name.as_deref(), Some("color"));
            assert_eq!(members[1].name.as_deref(), Some("kind"));
            assert_eq!(*span, 20);
        }
        other => panic!("expected struct, got {:?}", other),
    }
}

#[test]
fn parse_struct_same_text_interns_to_same_handle() {
    let mut parser = Parser::new(ShaderStage::Vertex);
    let decl = || {
        vec![
            tok(TokenValue::Struct),
            tok(TokenValue::Identifier("S".to_string())),
            tok(TokenValue::LeftBrace),
            tok(TokenValue::TypeName(int_type())),
            tok(TokenValue::Identifier("x".to_string())),
            tok(TokenValue::Semicolon),
            tok(TokenValue::RightBrace),
        ]
    };
    let mut first_cursor = ParsingContext::new(decl());
    let (first, _) = first_cursor.parse_type(&mut parser).unwrap();
    let mut second_cursor = ParsingContext::new(decl());
    let (second, _) = second_cursor.parse_type(&mut parser).unwrap();
    assert_eq!(first.unwrap(), second.unwrap());
    // The registered name resolves to the same handle as well.
    let mut by_name = ParsingContext::new(vec![tok(TokenValue::Identifier("S".to_string()))]);
    let (named, _) = by_name.parse_type(&mut parser).unwrap();
    assert_eq!(named.unwrap(), first.unwrap());
}

#[test]
fn parse_array_specifier_absent() {
    let mut parser = Parser::new(ShaderStage::Vertex);
    let mut cursor = ParsingContext::new(vec![tok(TokenValue::Semicolon)]);
    let parsed = cursor.parse_array_specifier(&mut parser).unwrap();
    assert!(parsed.is_none());
    assert_eq!(cursor.tokens.len(), 1);
}

#[test]
fn parse_array_specifier_dynamic() {
    let mut parser = Parser::new(ShaderStage::Vertex);
    let mut cursor = ParsingContext::new(vec![
        Token { value: TokenValue::LeftBracket, meta: sp(4, 5) },
        Token { value: TokenValue::RightBracket, meta: sp(5, 6) },
    ]);
    let (size, meta) = cursor.parse_array_specifier(&mut parser).unwrap().unwrap();
    assert_eq!(size, ArraySize::Dynamic);
    assert_eq!(meta, sp(4, 6));
    assert_eq!(parser.module.constants.len(), 0);
}

#[test]
fn parse_array_specifier_sized_interns_constant() {
    let mut parser = Parser::new(ShaderStage::Vertex);
    let mut cursor = ParsingContext::new(vec![
        tok(TokenValue::LeftBracket),
        tok(TokenValue::UintConstant(4)),
        tok(TokenValue::RightBracket),
    ]);
    let (size, _) = cursor.parse_array_specifier(&mut parser).unwrap().unwrap();
    match size {
        ArraySize::Constant(handle) => {
            assert_eq!(
                parser.module.constants[handle.index],
                Constant {
                    name: None,
                    inner: ConstantInner::Scalar { width: 4, value: ScalarValue::Uint(4) },
                }
            );
        }
        other => panic!("expected sized array, got {:?}", other),
    }
}

#[test]
fn parse_array_specifier_missing_close_fails() {
    let mut parser = Parser::new(ShaderStage::Vertex);
    let mut cursor = ParsingContext::new(vec![
        tok(TokenValue::LeftBracket),
        tok(TokenValue::UintConstant(4)),
        tok(TokenValue::Semicolon),
    ]);
    let err = cursor.parse_array_specifier(&mut parser).unwrap_err();
    assert!(matches!(err.kind, ErrorKind::InvalidToken(..)));
}

#[test]
fn parse_type_wraps_array_around_base() {
    let mut parser = Parser::new(ShaderStage::Vertex);
    let mut cursor = ParsingContext::new(vec![
        tok(TokenValue::TypeName(vec4_type())),
        tok(TokenValue::LeftBracket),
        tok(TokenValue::RightBracket),
    ]);
    let (handle, _) = cursor.parse_type(&mut parser).unwrap();
    let handle = handle.unwrap();
    match parser.module.types[handle.index].inner {
        TypeInner::Array { base, size, stride } => {
            assert!(matches!(
                parser.module.types[base.index].inner,
                TypeInner::Vector { size: VectorSize::Quad, .. }
            ));
            assert_eq!(size, ArraySize::Dynamic);
            assert_eq!(stride, 16);
        }
        ref other => panic!("expected array, got {:?}", other),
    }
}

#[test]
fn parse_type_end_of_stream_fails() {
    let mut parser = Parser::new(ShaderStage::Vertex);
    let mut cursor = ParsingContext::new(Vec::new());
    let err = cursor.parse_type(&mut parser).unwrap_err();
    assert!(matches!(err.kind, ErrorKind::EndOfFile));
}

#[test]
fn peek_type_name_sees_known_identifiers() {
    let mut parser = Parser::new(ShaderStage::Vertex);
    let handle = parser.module.insert_type(int_type());
    parser.lookup_type_insert("myint".to_string(), handle);
    let known = ParsingContext::new(vec![tok(TokenValue::Identifier("myint".to_string()))]);
    assert!(known.peek_type_name(&parser));
    let unknown = ParsingContext::new(vec![tok(TokenValue::Identifier("other".to_string()))]);
    assert!(!unknown.peek_type_name(&parser));
    let keyword = ParsingContext::new(vec![tok(TokenValue::Void)]);
    assert!(keyword.peek_type_name(&parser));
    let not_a_type = ParsingContext::new(vec![tok(TokenValue::Comma)]);
    assert!(!not_a_type.peek_type_name(&parser));
}

#[test]
fn span_subsume_unions_defined_ranges() {
    let mut meta = sp(4, 7);
    meta.subsume(sp(9, 12));
    assert_eq!(meta, sp(4, 12));
    let mut undefined = Span::undefined();
    undefined.subsume(sp(2, 3));
    assert_eq!(undefined, sp(2, 3));
    let mut kept = sp(2, 3);
    kept.subsume(Span::undefined());
    assert_eq!(kept, sp(2, 3));
}

#[test]
fn sized_array_specifier_interns_to_same_handle_twice() {
    let mut parser = Parser::new(ShaderStage::Vertex);
    let spelled = || {
        vec![
            tok(TokenValue::TypeName(vec4_type())),
            tok(TokenValue::LeftBracket),
            tok(TokenValue::UintConstant(3)),
            tok(TokenValue::RightBracket),
        ]
    };
    let mut first_cursor = ParsingContext::new(spelled());
    let (first, _) = first_cursor.parse_type(&mut parser).unwrap();
    let mut second_cursor = ParsingContext::new(spelled());
    let (second, _) = second_cursor.parse_type(&mut parser).unwrap();
    // Same textual specifier, same handle: the length constant and the array
    // type are both interned, not re-appended.
    assert_eq!(first.unwrap(), second.unwrap());
    assert_eq!(parser.module.constants.len(), 1);
    assert_eq!(parser.module.types.len(), 2);
    // A different length still gets its own constant and type.
    let mut third_cursor = ParsingContext::new(vec![
        tok(TokenValue::TypeName(vec4_type())),
        tok(TokenValue::LeftBracket),
        tok(TokenValue::UintConstant(4)),
        tok(TokenValue::RightBracket),
    ]);
    let (third, _) = third_cursor.parse_type(&mut parser).unwrap();
    assert_ne!(third.unwrap(), first.unwrap());
    assert_eq!(parser.module.constants.len(), 2);
}
