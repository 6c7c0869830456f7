//! Variable resolution (locals, globals, built-ins), declaration building
//! and field/swizzle selection.

use glsl_front::ast::{
    GlobalOrConstant, QualifierKey, QualifierValue, StorageQualifier, TypeQualifiers,
    VarDeclaration,
};
use glsl_front::context::Context;
use glsl_front::error::{ErrorKind, SemanticErrorKind};
use glsl_front::ir::{
    AddressSpace, Binding, BuiltIn, Expression, GlobalHandle, ResourceBinding, ScalarKind,
    ShaderStage, SwizzleComponent, Type, TypeHandle, TypeInner, VectorSize, STORAGE_ACCESS_ALL,
    STORAGE_ACCESS_LOAD, STORAGE_ACCESS_STORE,
};
use glsl_front::parser::Parser;
use glsl_front::span::Span;

fn sp(start: u32, end: u32) -> Span {
    Span { start, end }
}

fn meta() -> Span {
    Span { start: 0, end: 0 }
}

fn vec4_inner() -> TypeInner {
    TypeInner::Vector { size: VectorSize::Quad, kind: ScalarKind::Float, width: 4 }
}

fn float_ty(parser: &mut Parser) -> TypeHandle {
    parser.module.insert_type(Type {
        name: None,
        inner: TypeInner::Scalar { kind: ScalarKind::Float, width: 4 },
    })
}

fn decl(qualifiers: TypeQualifiers, ty: TypeHandle, name: &str) -> VarDeclaration {
    VarDeclaration { qualifiers, ty, name: Some(name.to_string()), init: None, meta: meta() }
}

#[test]
fn builtin_first_resolution_materializes_once() {
    let mut parser = Parser::new(ShaderStage::Vertex);
    let mut ctx = Context::new();
    let first = parser
        .lookup_variable(&mut ctx, "gl_Position", meta())
        .unwrap();
    assert_eq!(parser.module.global_variables.len(), 1);
    assert_eq!(parser.entry_args.len(), 1);
    assert_eq!(parser.entry_args[0].binding, Binding::BuiltIn(BuiltIn::Position));
    assert!(first.mutable);
    assert!(first.load);
    assert_eq!(first.entry_arg, Some(0));

    let expressions_before = ctx.expressions.len();
    let second = parser
        .lookup_variable(&mut ctx, "gl_Position", meta())
        .unwrap();
    // No further allocation, and the same backing expression comes back.
    assert_eq!(parser.module.global_variables.len(), 1);
    assert_eq!(parser.entry_args.len(), 1);
    assert_eq!(ctx.expressions.len(), expressions_before);
    assert_eq!(second.expr, first.expr);
}

#[test]
fn fragment_coordinate_is_readonly_input() {
    let mut parser = Parser::new(ShaderStage::Fragment);
    let mut ctx = Context::new();
    let reference = parser
        .lookup_variable(&mut ctx, "gl_FragCoord", meta())
        .unwrap();
    assert!(!reference.mutable);
    assert_eq!(parser.entry_args[0].binding, Binding::BuiltIn(BuiltIn::Position));
    assert_eq!(parser.entry_args[0].storage, StorageQualifier::Input);
}

#[test]
fn clip_and_cull_distance_mutable_only_in_vertex_stage() {
    for (stage, expected) in [
        (ShaderStage::Vertex, true),
        (ShaderStage::Fragment, false),
        (ShaderStage::Compute, false),
    ] {
        let mut parser = Parser::new(stage);
        let mut ctx = Context::new();
        let clip = parser
            .lookup_variable(&mut ctx, "gl_ClipDistance", meta())
            .unwrap();
        assert_eq!(clip.mutable, expected);
        let cull = parser
            .lookup_variable(&mut ctx, "gl_CullDistance", meta())
            .unwrap();
        assert_eq!(cull.mutable, expected);
        assert_eq!(
            parser.entry_args[0].binding,
            Binding::BuiltIn(BuiltIn::ClipDistance)
        );
        assert_eq!(
            parser.entry_args[1].binding,
            Binding::BuiltIn(BuiltIn::CullDistance)
        );
    }
}

#[test]
fn unknown_identifier_resolves_to_nothing() {
    let mut parser = Parser::new(ShaderStage::Vertex);
    let mut ctx = Context::new();
    assert!(parser.lookup_variable(&mut ctx, "not_a_thing", meta()).is_none());
    assert_eq!(parser.module.global_variables.len(), 0);
    assert_eq!(parser.entry_args.len(), 0);
}

#[test]
fn local_scope_shadows_global_scope() {
    let mut parser = Parser::new(ShaderStage::Vertex);
    let mut ctx = Context::new();
    let ty = float_ty(&mut parser);
    let mut q = TypeQualifiers::new();
    q.storage = (StorageQualifier::AddressSpace(AddressSpace::Function), meta());
    parser
        .add_global_var(&mut ctx, decl(TypeQualifiers::new(), ty, "x"))
        .unwrap();
    let global_ref = parser.lookup_variable(&mut ctx, "x", meta()).unwrap();
    let local_expr = parser.add_local_var(&mut ctx, decl(q, ty, "x")).unwrap();
    let shadowed = parser.lookup_variable(&mut ctx, "x", meta()).unwrap();
    assert_eq!(shadowed.expr, local_expr);
    assert_ne!(shadowed.expr, global_ref.expr);
}

#[test]
fn const_global_without_initializer_is_fatal() {
    let mut parser = Parser::new(ShaderStage::Vertex);
    let mut ctx = Context::new();
    let ty = float_ty(&mut parser);
    let mut q = TypeQualifiers::new();
    q.storage = (StorageQualifier::Const, meta());
    let err = parser.add_global_var(&mut ctx, decl(q, ty, "x")).unwrap_err();
    assert!(matches!(
        err.kind,
        ErrorKind::SemanticError(SemanticErrorKind::MissingConstInitializer)
    ));
    assert_eq!(parser.module.global_variables.len(), 0);
}

#[test]
fn const_global_with_initializer_registers_the_constant() {
    let mut parser = Parser::new(ShaderStage::Vertex);
    let mut ctx = Context::new();
    let ty = float_ty(&mut parser);
    let init = parser.module.append_constant(glsl_front::ir::Constant {
        name: None,
        inner: glsl_front::ir::ConstantInner::Scalar {
            width: 4,
            value: glsl_front::ir::ScalarValue::Uint(7),
        },
    });
    let mut q = TypeQualifiers::new();
    q.storage = (StorageQualifier::Const, meta());
    let declaration = VarDeclaration {
        qualifiers: q,
        ty,
        name: Some("seven".to_string()),
        init: Some(init),
        meta: meta(),
    };
    let built = parser.add_global_var(&mut ctx, declaration).unwrap();
    assert_eq!(built, GlobalOrConstant::Constant(init));
    // No global-variable entry is created for a constant.
    assert_eq!(parser.module.global_variables.len(), 0);
    let reference = parser.lookup_variable(&mut ctx, "seven", meta()).unwrap();
    assert!(!reference.mutable);
    assert!(!reference.load);
    assert_eq!(reference.constant, Some((init, ty)));
}

#[test]
fn buffer_without_access_qualifier_has_full_access() {
    let mut parser = Parser::new(ShaderStage::Compute);
    let mut ctx = Context::new();
    let ty = float_ty(&mut parser);
    let mut q = TypeQualifiers::new();
    q.storage = (
        StorageQualifier::AddressSpace(AddressSpace::Storage { access: STORAGE_ACCESS_ALL }),
        meta(),
    );
    q.layout_qualifiers.insert(
        QualifierKey::String("binding".to_string()),
        QualifierValue::Uint(0),
        meta(),
    );
    parser.add_global_var(&mut ctx, decl(q, ty, "data")).unwrap();
    assert_eq!(
        parser.module.global_variables[0].space,
        AddressSpace::Storage { access: STORAGE_ACCESS_ALL }
    );
    assert_eq!(parser.errors.len(), 0);
}

#[test]
fn readonly_access_qualifier_narrows_storage_access() {
    let mut parser = Parser::new(ShaderStage::Compute);
    let mut ctx = Context::new();
    let ty = float_ty(&mut parser);
    let mut q = TypeQualifiers::new();
    q.storage = (
        StorageQualifier::AddressSpace(AddressSpace::Storage { access: STORAGE_ACCESS_ALL }),
        meta(),
    );
    // `readonly` restricts stores: exactly the store bit is removed.
    q.storage_access = Some((STORAGE_ACCESS_STORE, meta()));
    q.layout_qualifiers.insert(
        QualifierKey::String("binding".to_string()),
        QualifierValue::Uint(0),
        meta(),
    );
    parser.add_global_var(&mut ctx, decl(q, ty, "data")).unwrap();
    assert_eq!(
        parser.module.global_variables[0].space,
        AddressSpace::Storage { access: STORAGE_ACCESS_LOAD }
    );
}

#[test]
fn uniform_image_lands_in_handle_space() {
    let mut parser = Parser::new(ShaderStage::Fragment);
    let mut ctx = Context::new();
    let ty = parser
        .module
        .insert_type(Type { name: None, inner: TypeInner::Image });
    let mut q = TypeQualifiers::new();
    q.storage = (StorageQualifier::AddressSpace(AddressSpace::Uniform), meta());
    // Another qualifier present changes nothing about the reclassification.
    q.layout_qualifiers.insert(
        QualifierKey::String("binding".to_string()),
        QualifierValue::Uint(3),
        meta(),
    );
    parser.add_global_var(&mut ctx, decl(q, ty, "tex")).unwrap();
    assert_eq!(parser.module.global_variables[0].space, AddressSpace::Handle);
    assert_eq!(
        parser.module.global_variables[0].binding,
        Some(ResourceBinding { group: 0, binding: 3 })
    );
}

#[test]
fn uniform_sampler_lands_in_handle_space() {
    let mut parser = Parser::new(ShaderStage::Fragment);
    let mut ctx = Context::new();
    let ty = parser.module.insert_type(Type {
        name: None,
        inner: TypeInner::Sampler { comparison: false },
    });
    let mut q = TypeQualifiers::new();
    q.storage = (StorageQualifier::AddressSpace(AddressSpace::Uniform), meta());
    q.layout_qualifiers.insert(
        QualifierKey::String("binding".to_string()),
        QualifierValue::Uint(1),
        meta(),
    );
    parser.add_global_var(&mut ctx, decl(q, ty, "samp")).unwrap();
    assert_eq!(parser.module.global_variables[0].space, AddressSpace::Handle);
}

#[test]
fn uniform_with_push_constant_flag_reclassifies() {
    let mut parser = Parser::new(ShaderStage::Vertex);
    let mut ctx = Context::new();
    let ty = float_ty(&mut parser);
    let mut q = TypeQualifiers::new();
    q.storage = (StorageQualifier::AddressSpace(AddressSpace::Uniform), meta());
    q.layout_qualifiers.insert(
        QualifierKey::String("push_constant".to_string()),
        QualifierValue::NoValue,
        meta(),
    );
    parser.add_global_var(&mut ctx, decl(q, ty, "pc")).unwrap();
    assert_eq!(
        parser.module.global_variables[0].space,
        AddressSpace::PushConstant
    );
    // Push-constant data carries no resource binding and demands none.
    assert_eq!(parser.module.global_variables[0].binding, None);
    assert_eq!(parser.errors.len(), 0);
}

#[test]
fn storage_global_without_binding_layout_reports_once_and_stays_usable() {
    let mut parser = Parser::new(ShaderStage::Compute);
    let mut ctx = Context::new();
    let ty = float_ty(&mut parser);
    let mut q = TypeQualifiers::new();
    q.storage = (
        StorageQualifier::AddressSpace(AddressSpace::Storage { access: STORAGE_ACCESS_ALL }),
        meta(),
    );
    let built = parser.add_global_var(&mut ctx, decl(q, ty, "data")).unwrap();
    assert_eq!(parser.errors.len(), 1);
    assert!(matches!(
        parser.errors[0].kind,
        ErrorKind::SemanticError(SemanticErrorKind::MissingBindingLayout)
    ));
    match built {
        GlobalOrConstant::Global(handle) => {
            assert_eq!(parser.module.global_variables[handle.index].binding, None);
            assert!(parser.lookup_variable(&mut ctx, "data", meta()).is_some());
        }
        other => panic!("expected a global, got {:?}", other),
    }
}

#[test]
fn input_global_gets_location_binding_and_interpolation_default() {
    let mut parser = Parser::new(ShaderStage::Vertex);
    let mut ctx = Context::new();
    let ty = float_ty(&mut parser);
    let mut q = TypeQualifiers::new();
    q.storage = (StorageQualifier::Input, meta());
    q.layout_qualifiers.insert(
        QualifierKey::String("location".to_string()),
        QualifierValue::Uint(2),
        meta(),
    );
    parser.add_global_var(&mut ctx, decl(q, ty, "pos")).unwrap();
    assert_eq!(parser.module.global_variables[0].space, AddressSpace::Private);
    assert_eq!(parser.entry_args.len(), 1);
    match &parser.entry_args[0].binding {
        Binding::Location { location, interpolation, sampling } => {
            assert_eq!(*location, 2);
            // A float-typed value defaults to perspective interpolation.
            assert_eq!(*interpolation, Some(glsl_front::ir::Interpolation::Perspective));
            assert_eq!(*sampling, None);
        }
        other => panic!("expected a location binding, got {:?}", other),
    }
    let reference = parser.lookup_variable(&mut ctx, "pos", meta()).unwrap();
    assert!(!reference.mutable);
    assert_eq!(reference.entry_arg, Some(0));
}

#[test]
fn output_global_is_mutable_and_unlocated_defaults_to_zero() {
    let mut parser = Parser::new(ShaderStage::Vertex);
    let mut ctx = Context::new();
    let ty = parser.module.insert_type(Type {
        name: None,
        inner: TypeInner::Scalar { kind: ScalarKind::Sint, width: 4 },
    });
    let mut q = TypeQualifiers::new();
    q.storage = (StorageQualifier::Output, meta());
    parser.add_global_var(&mut ctx, decl(q, ty, "out_value")).unwrap();
    match &parser.entry_args[0].binding {
        Binding::Location { location, interpolation, .. } => {
            assert_eq!(*location, 0);
            // Non-float values default to flat interpolation.
            assert_eq!(*interpolation, Some(glsl_front::ir::Interpolation::Flat));
        }
        other => panic!("expected a location binding, got {:?}", other),
    }
    let reference = parser.lookup_variable(&mut ctx, "out_value", meta()).unwrap();
    assert!(reference.mutable);
}

#[test]
fn unused_layout_pairs_are_reported() {
    let mut parser = Parser::new(ShaderStage::Vertex);
    let mut ctx = Context::new();
    let ty = float_ty(&mut parser);
    let mut q = TypeQualifiers::new();
    q.storage = (StorageQualifier::Input, meta());
    q.layout_qualifiers.insert(
        QualifierKey::String("whatever".to_string()),
        QualifierValue::Uint(9),
        sp(5, 13),
    );
    parser.add_global_var(&mut ctx, decl(q, ty, "pos")).unwrap();
    assert_eq!(parser.errors.len(), 1);
    assert!(matches!(
        parser.errors[0].kind,
        ErrorKind::SemanticError(SemanticErrorKind::UnusedQualifier)
    ));
    assert_eq!(parser.errors[0].meta, sp(5, 13));
}

#[test]
fn local_storage_qualifier_is_recoverable_and_stays_mutable() {
    let mut parser = Parser::new(ShaderStage::Vertex);
    let mut ctx = Context::new();
    let ty = float_ty(&mut parser);
    let mut q = TypeQualifiers::new();
    q.storage = (StorageQualifier::Input, sp(1, 3));
    parser.add_local_var(&mut ctx, decl(q, ty, "x")).unwrap();
    assert_eq!(parser.errors.len(), 1);
    assert!(matches!(
        parser.errors[0].kind,
        ErrorKind::SemanticError(SemanticErrorKind::LocalStorageQualifier)
    ));
    assert_eq!(parser.errors[0].meta, sp(1, 3));
    let reference = parser.lookup_variable(&mut ctx, "x", meta()).unwrap();
    assert!(reference.mutable);
}

#[test]
fn const_local_is_immutable() {
    let mut parser = Parser::new(ShaderStage::Vertex);
    let mut ctx = Context::new();
    let ty = float_ty(&mut parser);
    let mut q = TypeQualifiers::new();
    q.storage = (StorageQualifier::Const, meta());
    parser.add_local_var(&mut ctx, decl(q, ty, "k")).unwrap();
    assert_eq!(parser.errors.len(), 0);
    let reference = parser.lookup_variable(&mut ctx, "k", meta()).unwrap();
    assert!(!reference.mutable);
}

#[test]
fn duplicate_local_name_in_scope_is_recoverable() {
    let mut parser = Parser::new(ShaderStage::Vertex);
    let mut ctx = Context::new();
    let ty = float_ty(&mut parser);
    parser.add_local_var(&mut ctx, decl(TypeQualifiers::new(), ty, "x")).unwrap();
    let second = parser.add_local_var(&mut ctx, decl(TypeQualifiers::new(), ty, "x")).unwrap();
    assert_eq!(parser.errors.len(), 1);
    match &parser.errors[0].kind {
        ErrorKind::VariableAlreadyDeclared(name) => assert_eq!(name, "x"),
        other => panic!("expected duplicate declaration, got {:?}", other),
    }
    // The new binding still shadows the old one.
    let reference = parser.lookup_variable(&mut ctx, "x", meta()).unwrap();
    assert_eq!(reference.expr, second);
}

#[test]
fn nested_scope_allows_shadowing_without_diagnostic() {
    let mut parser = Parser::new(ShaderStage::Vertex);
    let mut ctx = Context::new();
    let ty = float_ty(&mut parser);
    let outer = parser.add_local_var(&mut ctx, decl(TypeQualifiers::new(), ty, "x")).unwrap();
    ctx.push_scope();
    let inner = parser.add_local_var(&mut ctx, decl(TypeQualifiers::new(), ty, "x")).unwrap();
    assert_eq!(parser.errors.len(), 0);
    assert_eq!(parser.lookup_variable(&mut ctx, "x", meta()).unwrap().expr, inner);
    ctx.pop_scope();
    assert_eq!(parser.lookup_variable(&mut ctx, "x", meta()).unwrap().expr, outer);
}

#[test]
fn struct_field_selection_finds_member_index() {
    let mut parser = Parser::new(ShaderStage::Vertex);
    let mut ctx = Context::new();
    let member_ty = float_ty(&mut parser);
    let struct_ty = parser.module.insert_type(Type {
        name: Some("Pair".to_string()),
        inner: TypeInner::Struct {
            members: vec![
                glsl_front::ir::StructMember { name: Some("first".to_string()), ty: member_ty },
                glsl_front::ir::StructMember { name: Some("second".to_string()), ty: member_ty },
            ],
            span: 8,
        },
    });
    let base = ctx.add_expression(
        Expression::GlobalVariable(GlobalHandle { index: 0 }),
        struct_ty,
        true,
    );
    let access = parser
        .field_selection(&mut ctx, false, base, "second", meta())
        .unwrap();
    match &ctx.expressions[access.index] {
        Expression::AccessIndex { base: b, index } => {
            assert_eq!(*b, base);
            assert_eq!(*index, 1);
        }
        other => panic!("expected member access, got {:?}", other),
    }
    let err = parser
        .field_selection(&mut ctx, false, base, "third", meta())
        .unwrap_err();
    match err.kind {
        ErrorKind::UnknownField(name) => assert_eq!(name, "third"),
        other => panic!("expected unknown field, got {:?}", other),
    }
}

#[test]
fn swizzle_composition_flattens_to_direct_access() {
    let mut parser = Parser::new(ShaderStage::Vertex);
    let mut ctx = Context::new();
    let vec_ty = parser.module.insert_type(Type { name: None, inner: vec4_inner() });
    let base = ctx.add_expression(
        Expression::GlobalVariable(GlobalHandle { index: 0 }),
        vec_ty,
        false,
    );
    let zyx = parser.field_selection(&mut ctx, false, base, "zyx", meta()).unwrap();
    let via_swizzle = parser.field_selection(&mut ctx, false, zyx, "x", meta()).unwrap();
    let direct = parser.field_selection(&mut ctx, false, base, "z", meta()).unwrap();
    let via = match &ctx.expressions[via_swizzle.index] {
        Expression::AccessIndex { base: b, index } => (*b, *index),
        other => panic!("expected component access, got {:?}", other),
    };
    let wanted = match &ctx.expressions[direct.index] {
        Expression::AccessIndex { base: b, index } => (*b, *index),
        other => panic!("expected component access, got {:?}", other),
    };
    assert_eq!(via, wanted);
    assert_eq!(via, (base, 2));
}

#[test]
fn lvalue_swizzle_with_repeats_is_rejected_read_is_not() {
    let mut parser = Parser::new(ShaderStage::Vertex);
    let mut ctx = Context::new();
    let vec_ty = parser.module.insert_type(Type { name: None, inner: vec4_inner() });
    let base = ctx.add_expression(
        Expression::GlobalVariable(GlobalHandle { index: 0 }),
        vec_ty,
        false,
    );
    let read = parser.field_selection(&mut ctx, false, base, "xx", meta()).unwrap();
    assert_eq!(parser.errors.len(), 0);
    match &ctx.expressions[read.index] {
        Expression::Swizzle { size, pattern, vector } => {
            assert_eq!(*size, VectorSize::Bi);
            assert_eq!(*vector, base);
            assert_eq!(pattern[0], SwizzleComponent::X);
            assert_eq!(pattern[1], SwizzleComponent::X);
        }
        other => panic!("expected swizzle, got {:?}", other),
    }
    let written = parser.field_selection(&mut ctx, true, base, "xx", meta());
    assert!(written.is_ok());
    assert_eq!(parser.errors.len(), 1);
    assert!(matches!(
        parser.errors[0].kind,
        ErrorKind::SemanticError(SemanticErrorKind::DuplicateLvalueSwizzle)
    ));
}

#[test]
fn swizzle_alphabets_must_not_mix() {
    let mut parser = Parser::new(ShaderStage::Vertex);
    let mut ctx = Context::new();
    let vec_ty = parser.module.insert_type(Type { name: None, inner: vec4_inner() });
    let base = ctx.add_expression(
        Expression::GlobalVariable(GlobalHandle { index: 0 }),
        vec_ty,
        false,
    );
    let err = parser.field_selection(&mut ctx, false, base, "xg", meta()).unwrap_err();
    assert!(matches!(
        err.kind,
        ErrorKind::SemanticError(SemanticErrorKind::InvalidSwizzle)
    ));
    // All three alphabets work on their own.
    assert!(parser.field_selection(&mut ctx, false, base, "xyzw", meta()).is_ok());
    assert!(parser.field_selection(&mut ctx, false, base, "rgba", meta()).is_ok());
    assert!(parser.field_selection(&mut ctx, false, base, "stpq", meta()).is_ok());
}

#[test]
fn swizzle_component_must_fit_vector_size() {
    let mut parser = Parser::new(ShaderStage::Vertex);
    let mut ctx = Context::new();
    let vec2_ty = parser.module.insert_type(Type {
        name: None,
        inner: TypeInner::Vector { size: VectorSize::Bi, kind: ScalarKind::Float, width: 4 },
    });
    let base = ctx.add_expression(
        Expression::GlobalVariable(GlobalHandle { index: 0 }),
        vec2_ty,
        false,
    );
    let err = parser.field_selection(&mut ctx, false, base, "z", meta()).unwrap_err();
    assert!(matches!(
        err.kind,
        ErrorKind::SemanticError(SemanticErrorKind::InvalidSwizzle)
    ));
}

#[test]
fn oversized_swizzle_recovers_with_quad() {
    let mut parser = Parser::new(ShaderStage::Vertex);
    let mut ctx = Context::new();
    let vec_ty = parser.module.insert_type(Type { name: None, inner: vec4_inner() });
    let base = ctx.add_expression(
        Expression::GlobalVariable(GlobalHandle { index: 0 }),
        vec_ty,
        false,
    );
    let result = parser.field_selection(&mut ctx, false, base, "xyzxy", meta()).unwrap();
    assert_eq!(parser.errors.len(), 1);
    assert!(matches!(
        parser.errors[0].kind,
        ErrorKind::SemanticError(SemanticErrorKind::BadSwizzleSize)
    ));
    match &ctx.expressions[result.index] {
        Expression::Swizzle { size, .. } => assert_eq!(*size, VectorSize::Quad),
        other => panic!("expected swizzle, got {:?}", other),
    }
}

#[test]
fn swizzle_of_pointer_inserts_load() {
    let mut parser = Parser::new(ShaderStage::Vertex);
    let mut ctx = Context::new();
    let vec_ty = parser.module.insert_type(Type { name: None, inner: vec4_inner() });
    let base = ctx.add_expression(
        Expression::GlobalVariable(GlobalHandle { index: 0 }),
        vec_ty,
        true,
    );
    let result = parser.field_selection(&mut ctx, false, base, "xy", meta()).unwrap();
    match &ctx.expressions[result.index] {
        Expression::Swizzle { vector, .. } => match &ctx.expressions[vector.index] {
            Expression::Load { pointer } => assert_eq!(*pointer, base),
            other => panic!("expected a load under the swizzle, got {:?}", other),
        },
        other => panic!("expected swizzle, got {:?}", other),
    }
}

#[test]
fn field_selection_on_scalar_fails() {
    let mut parser = Parser::new(ShaderStage::Vertex);
    let mut ctx = Context::new();
    let ty = float_ty(&mut parser);
    let base = ctx.add_expression(
        Expression::GlobalVariable(GlobalHandle { index: 0 }),
        ty,
        false,
    );
    let err = parser.field_selection(&mut ctx, false, base, "x", meta()).unwrap_err();
    assert!(matches!(
        err.kind,
        ErrorKind::SemanticError(SemanticErrorKind::FieldOnNonAggregate)
    ));
}

#[test]
fn every_catalog_name_materializes_with_its_kind() {
    let expectations = [
        ("gl_Position", BuiltIn::Position, true),
        ("gl_FragCoord", BuiltIn::Position, false),
        ("gl_GlobalInvocationID", BuiltIn::GlobalInvocationId, false),
        ("gl_NumWorkGroups", BuiltIn::NumWorkGroups, false),
        ("gl_WorkGroupSize", BuiltIn::WorkGroupSize, false),
        ("gl_WorkGroupID", BuiltIn::WorkGroupId, false),
        ("gl_LocalInvocationID", BuiltIn::LocalInvocationId, false),
        ("gl_FrontFacing", BuiltIn::FrontFacing, false),
        ("gl_PointSize", BuiltIn::PointSize, true),
        ("gl_FragDepth", BuiltIn::FragDepth, true),
        ("gl_ClipDistance", BuiltIn::ClipDistance, true),
        ("gl_CullDistance", BuiltIn::CullDistance, true),
        ("gl_BaseVertex", BuiltIn::BaseVertex, false),
        ("gl_BaseInstance", BuiltIn::BaseInstance, false),
        ("gl_PrimitiveID", BuiltIn::PrimitiveIndex, false),
        ("gl_InstanceIndex", BuiltIn::InstanceIndex, false),
        ("gl_VertexIndex", BuiltIn::VertexIndex, false),
        ("gl_SampleID", BuiltIn::SampleIndex, false),
        ("gl_LocalInvocationIndex", BuiltIn::LocalInvocationIndex, false),
    ];
    let mut parser = Parser::new(ShaderStage::Vertex);
    let mut ctx = Context::new();
    for (slot, (name, kind, mutable)) in expectations.iter().enumerate() {
        let reference = parser.lookup_variable(&mut ctx, name, meta()).unwrap();
        assert_eq!(reference.mutable, *mutable, "mutability of {}", name);
        assert_eq!(reference.entry_arg, Some(slot), "entry slot of {}", name);
        assert_eq!(
            parser.entry_args[slot].binding,
            Binding::BuiltIn(*kind),
            "kind of {}",
            name
        );
        let var = &parser.module.global_variables[slot];
        assert_eq!(var.name.as_deref(), Some(*name));
        assert_eq!(var.space, AddressSpace::Private);
    }
    assert_eq!(parser.entry_args.len(), expectations.len());
    assert_eq!(parser.module.global_variables.len(), expectations.len());
}

#[test]
fn missing_binding_with_other_layout_keys_still_reports_exactly_once() {
    // layout(set = 0) buffer float data; — `set` is claimed, `binding` is
    // missing: exactly one diagnostic, and the global stays usable.
    let mut parser = Parser::new(ShaderStage::Compute);
    let mut ctx = Context::new();
    let ty = float_ty(&mut parser);
    let mut q = TypeQualifiers::new();
    q.storage = (
        StorageQualifier::AddressSpace(AddressSpace::Storage { access: STORAGE_ACCESS_ALL }),
        meta(),
    );
    q.layout_qualifiers.insert(
        QualifierKey::String("set".to_string()),
        QualifierValue::Uint(0),
        meta(),
    );
    let built = parser.add_global_var(&mut ctx, decl(q, ty, "data")).unwrap();
    assert_eq!(parser.errors.len(), 1);
    assert!(matches!(
        parser.errors[0].kind,
        ErrorKind::SemanticError(SemanticErrorKind::MissingBindingLayout)
    ));
    match built {
        GlobalOrConstant::Global(handle) => {
            assert_eq!(parser.module.global_variables[handle.index].binding, None);
        }
        other => panic!("expected a global, got {:?}", other),
    }
}
