//! The variable resolver and declaration builder: identifiers against local
//! scope, global scope and the built-in catalog; declarations into IR global
//! or local variable entries.

use vstd::prelude::*;

use crate::ast::{
    claimed_flag, claimed_uint, flag_claim_errors, remove_skey, uint_claim_errors, unused_error,
    EntryArg, GlobalLookup, GlobalLookupKind, GlobalOrConstant, QualifierEntry, StorageQualifier,
    TypeQualifiers, VarDeclaration, VariableReference,
};
use crate::context::{scope_find, scopes_find, Context, ResolvedType, ScopeEntry};
use crate::error::{Error, ErrorKind, SemanticErrorKind};
use crate::ir::{
    AddressSpace, Binding, BuiltIn, Expression, ExpressionHandle, GlobalHandle, GlobalVariable,
    Interpolation, LocalVariable, ResourceBinding, ScalarKind, ShaderStage, StructMember,
    SwizzleComponent, Type, TypeHandle, TypeInner, VectorSize, BOOL_WIDTH,
};
use crate::module::{intern_index, interned_types};
use crate::parser::{GlobalEntry, Parser};
use crate::span::Span;

verus! {

/// Catalog row for one built-in name: the IR shape its variable gets, the
/// built-in kind of its stage-interface binding, whether it can be written,
/// and whether it is conceptually stage input or output.
pub struct BuiltInData {
    pub inner: TypeInner,
    pub builtin: BuiltIn,
    pub mutable: bool,
    pub storage: StorageQualifier,
}

/// The dynamically sized float arrays of the catalog, whose element type must
/// be interned before their own shape exists.
pub open spec fn is_clip_cull(name: Seq<char>) -> bool {
    name == "gl_ClipDistance"@ || name == "gl_CullDistance"@
}

/// The element type of the clip/cull distance arrays.
pub open spec fn float_scalar_type() -> Type {
    Type { name: None, inner: TypeInner::Scalar { kind: ScalarKind::Float, width: 4 } }
}

/// The types arena after the catalog interned what a built-in's shape needs.
pub open spec fn builtin_types_pre(types: Seq<crate::ir::Type>, name: Seq<char>) -> Seq<
    crate::ir::Type,
> {
    if is_clip_cull(name) {
        interned_types(types, float_scalar_type())
    } else {
        types
    }
}

/// The element-type handle a clip/cull array is built over; unused (and zero)
/// for every other name.
pub open spec fn builtin_base(types: Seq<crate::ir::Type>, name: Seq<char>) -> TypeHandle {
    if is_clip_cull(name) {
        TypeHandle { index: intern_index(types, float_scalar_type()) as usize }
    } else {
        TypeHandle { index: 0 }
    }
}

/// The fixed built-in catalog: what each reserved name resolves to, or `None`
/// for names the catalog does not know. `gl_Position` (a writable vertex
/// output) and `gl_FragCoord` (a read-only fragment input) share the position
/// built-in kind but differ in mutability and direction. The clip/cull
/// distance arrays are writable exactly in the vertex stage.
pub open spec fn builtin_data_spec(name: Seq<char>, stage: ShaderStage, base: TypeHandle)
    -> Option<BuiltInData> {
    let vec4f = TypeInner::Vector { size: VectorSize::Quad, kind: ScalarKind::Float, width: 4 };
    let vec3u = TypeInner::Vector { size: VectorSize::Tri, kind: ScalarKind::Uint, width: 4 };
    let uintscalar = TypeInner::Scalar { kind: ScalarKind::Uint, width: 4 };
    if name == "gl_Position"@ {
        Some(
            BuiltInData {
                inner: vec4f,
                builtin: BuiltIn::Position,
                mutable: true,
                storage: StorageQualifier::Output,
            },
        )
    } else if name == "gl_FragCoord"@ {
        Some(
            BuiltInData {
                inner: vec4f,
                builtin: BuiltIn::Position,
                mutable: false,
                storage: StorageQualifier::Input,
            },
        )
    } else if name == "gl_GlobalInvocationID"@ {
        Some(
            BuiltInData {
                inner: vec3u,
                builtin: BuiltIn::GlobalInvocationId,
                mutable: false,
                storage: StorageQualifier::Input,
            },
        )
    } else if name == "gl_NumWorkGroups"@ {
        Some(
            BuiltInData {
                inner: vec3u,
                builtin: BuiltIn::NumWorkGroups,
                mutable: false,
                storage: StorageQualifier::Input,
            },
        )
    } else if name == "gl_WorkGroupSize"@ {
        Some(
            BuiltInData {
                inner: vec3u,
                builtin: BuiltIn::WorkGroupSize,
                mutable: false,
                storage: StorageQualifier::Input,
            },
        )
    } else if name == "gl_WorkGroupID"@ {
        Some(
            BuiltInData {
                inner: vec3u,
                builtin: BuiltIn::WorkGroupId,
                mutable: false,
                storage: StorageQualifier::Input,
            },
        )
    } else if name == "gl_LocalInvocationID"@ {
        Some(
            BuiltInData {
                inner: vec3u,
                builtin: BuiltIn::LocalInvocationId,
                mutable: false,
                storage: StorageQualifier::Input,
            },
        )
    } else if name == "gl_FrontFacing"@ {
        Some(
            BuiltInData {
                inner: TypeInner::Scalar { kind: ScalarKind::Bool, width: BOOL_WIDTH },
                builtin: BuiltIn::FrontFacing,
                mutable: false,
                storage: StorageQualifier::Input,
            },
        )
    } else if name == "gl_PointSize"@ {
        Some(
            BuiltInData {
                inner: TypeInner::Scalar { kind: ScalarKind::Float, width: 4 },
                builtin: BuiltIn::PointSize,
                mutable: true,
                storage: StorageQualifier::Output,
            },
        )
    } else if name == "gl_FragDepth"@ {
        Some(
            BuiltInData {
                inner: TypeInner::Scalar { kind: ScalarKind::Float, width: 4 },
                builtin: BuiltIn::FragDepth,
                mutable: true,
                storage: StorageQualifier::Output,
            },
        )
    } else if name == "gl_ClipDistance"@ {
        Some(
            BuiltInData {
                inner: TypeInner::Array {
                    base,
                    size: crate::ir::ArraySize::Dynamic,
                    stride: 4,
                },
                builtin: BuiltIn::ClipDistance,
                mutable: stage == ShaderStage::Vertex,
                storage: StorageQualifier::Output,
            },
        )
    } else if name == "gl_CullDistance"@ {
        Some(
            BuiltInData {
                inner: TypeInner::Array {
                    base,
                    size: crate::ir::ArraySize::Dynamic,
                    stride: 4,
                },
                builtin: BuiltIn::CullDistance,
                mutable: stage == ShaderStage::Vertex,
                storage: StorageQualifier::Output,
            },
        )
    } else if name == "gl_BaseVertex"@ {
        Some(
            BuiltInData {
                inner: uintscalar,
                builtin: BuiltIn::BaseVertex,
                mutable: false,
                storage: StorageQualifier::Input,
            },
        )
    } else if name == "gl_BaseInstance"@ {
        Some(
            BuiltInData {
                inner: uintscalar,
                builtin: BuiltIn::BaseInstance,
                mutable: false,
                storage: StorageQualifier::Input,
            },
        )
    } else if name == "gl_PrimitiveID"@ {
        Some(
            BuiltInData {
                inner: uintscalar,
                builtin: BuiltIn::PrimitiveIndex,
                mutable: false,
                storage: StorageQualifier::Input,
            },
        )
    } else if name == "gl_InstanceIndex"@ {
        Some(
            BuiltInData {
                inner: uintscalar,
                builtin: BuiltIn::InstanceIndex,
                mutable: false,
                storage: StorageQualifier::Input,
            },
        )
    } else if name == "gl_VertexIndex"@ {
        Some(
            BuiltInData {
                inner: uintscalar,
                builtin: BuiltIn::VertexIndex,
                mutable: false,
                storage: StorageQualifier::Input,
            },
        )
    } else if name == "gl_SampleID"@ {
        Some(
            BuiltInData {
                inner: uintscalar,
                builtin: BuiltIn::SampleIndex,
                mutable: false,
                storage: StorageQualifier::Input,
            },
        )
    } else if name == "gl_LocalInvocationIndex"@ {
        Some(
            BuiltInData {
                inner: uintscalar,
                builtin: BuiltIn::LocalInvocationIndex,
                mutable: false,
                storage: StorageQualifier::Input,
            },
        )
    } else {
        None
    }
}

/// The global-variable entry a built-in materializes.
pub open spec fn builtin_global(gv: GlobalVariable, name: Seq<char>, ty: TypeHandle) -> bool {
    &&& gv.name matches Some(n) && n@ == name
    &&& gv.space == AddressSpace::Private
    &&& gv.binding is None
    &&& gv.ty == ty
    &&& gv.init is None
}

/// Executable catalog lookup, deciding `builtin_data_spec`.
fn builtin_data(name: &str, stage: ShaderStage, base: TypeHandle) -> (r: Option<BuiltInData>)
    ensures
        r == builtin_data_spec(name@, stage, base),
{
    let vec4f = TypeInner::Vector { size: VectorSize::Quad, kind: ScalarKind::Float, width: 4 };
    let vec3u = TypeInner::Vector { size: VectorSize::Tri, kind: ScalarKind::Uint, width: 4 };
    let uintscalar = TypeInner::Scalar { kind: ScalarKind::Uint, width: 4 };
    if crate::context::str_eq(name, "gl_Position") {
        Some(
            BuiltInData {
                inner: vec4f,
                builtin: BuiltIn::Position,
                mutable: true,
                storage: StorageQualifier::Output,
            },
        )
    } else if crate::context::str_eq(name, "gl_FragCoord") {
        Some(
            BuiltInData {
                inner: vec4f,
                builtin: BuiltIn::Position,
                mutable: false,
                storage: StorageQualifier::Input,
            },
        )
    } else if crate::context::str_eq(name, "gl_GlobalInvocationID") {
        Some(
            BuiltInData {
                inner: vec3u,
                builtin: BuiltIn::GlobalInvocationId,
                mutable: false,
                storage: StorageQualifier::Input,
            },
        )
    } else if crate::context::str_eq(name, "gl_NumWorkGroups") {
        Some(
            BuiltInData {
                inner: vec3u,
                builtin: BuiltIn::NumWorkGroups,
                mutable: false,
                storage: StorageQualifier::Input,
            },
        )
    } else if crate::context::str_eq(name, "gl_WorkGroupSize") {
        Some(
            BuiltInData {
                inner: vec3u,
                builtin: BuiltIn::WorkGroupSize,
                mutable: false,
                storage: StorageQualifier::Input,
            },
        )
    } else if crate::context::str_eq(name, "gl_WorkGroupID") {
        Some(
            BuiltInData {
                inner: vec3u,
                builtin: BuiltIn::WorkGroupId,
                mutable: false,
                storage: StorageQualifier::Input,
            },
        )
    } else if crate::context::str_eq(name, "gl_LocalInvocationID") {
        Some(
            BuiltInData {
                inner: vec3u,
                builtin: BuiltIn::LocalInvocationId,
                mutable: false,
                storage: StorageQualifier::Input,
            },
        )
    } else if crate::context::str_eq(name, "gl_FrontFacing") {
        Some(
            BuiltInData {
                inner: TypeInner::Scalar { kind: ScalarKind::Bool, width: BOOL_WIDTH },
                builtin: BuiltIn::FrontFacing,
                mutable: false,
                storage: StorageQualifier::Input,
            },
        )
    } else if crate::context::str_eq(name, "gl_PointSize") {
        Some(
            BuiltInData {
                inner: TypeInner::Scalar { kind: ScalarKind::Float, width: 4 },
                builtin: BuiltIn::PointSize,
                mutable: true,
                storage: StorageQualifier::Output,
            },
        )
    } else if crate::context::str_eq(name, "gl_FragDepth") {
        Some(
            BuiltInData {
                inner: TypeInner::Scalar { kind: ScalarKind::Float, width: 4 },
                builtin: BuiltIn::FragDepth,
                mutable: true,
                storage: StorageQualifier::Output,
            },
        )
    } else if crate::context::str_eq(name, "gl_ClipDistance") {
        Some(
            BuiltInData {
                inner: TypeInner::Array {
                    base,
                    size: crate::ir::ArraySize::Dynamic,
                    stride: 4,
                },
                builtin: BuiltIn::ClipDistance,
                mutable: matches!(stage, ShaderStage::Vertex),
                storage: StorageQualifier::Output,
            },
        )
    } else if crate::context::str_eq(name, "gl_CullDistance") {
        Some(
            BuiltInData {
                inner: TypeInner::Array {
                    base,
                    size: crate::ir::ArraySize::Dynamic,
                    stride: 4,
                },
                builtin: BuiltIn::CullDistance,
                mutable: matches!(stage, ShaderStage::Vertex),
                storage: StorageQualifier::Output,
            },
        )
    } else if crate::context::str_eq(name, "gl_BaseVertex") {
        Some(
            BuiltInData {
                inner: uintscalar,
                builtin: BuiltIn::BaseVertex,
                mutable: false,
                storage: StorageQualifier::Input,
            },
        )
    } else if crate::context::str_eq(name, "gl_BaseInstance") {
        Some(
            BuiltInData {
                inner: uintscalar,
                builtin: BuiltIn::BaseInstance,
                mutable: false,
                storage: StorageQualifier::Input,
            },
        )
    } else if crate::context::str_eq(name, "gl_PrimitiveID") {
        Some(
            BuiltInData {
                inner: uintscalar,
                builtin: BuiltIn::PrimitiveIndex,
                mutable: false,
                storage: StorageQualifier::Input,
            },
        )
    } else if crate::context::str_eq(name, "gl_InstanceIndex") {
        Some(
            BuiltInData {
                inner: uintscalar,
                builtin: BuiltIn::InstanceIndex,
                mutable: false,
                storage: StorageQualifier::Input,
            },
        )
    } else if crate::context::str_eq(name, "gl_VertexIndex") {
        Some(
            BuiltInData {
                inner: uintscalar,
                builtin: BuiltIn::VertexIndex,
                mutable: false,
                storage: StorageQualifier::Input,
            },
        )
    } else if crate::context::str_eq(name, "gl_SampleID") {
        Some(
            BuiltInData {
                inner: uintscalar,
                builtin: BuiltIn::SampleIndex,
                mutable: false,
                storage: StorageQualifier::Input,
            },
        )
    } else if crate::context::str_eq(name, "gl_LocalInvocationIndex") {
        Some(
            BuiltInData {
                inner: uintscalar,
                builtin: BuiltIn::LocalInvocationIndex,
                mutable: false,
                storage: StorageQualifier::Input,
            },
        )
    } else {
        None
    }
}

impl Parser {
    /// Materializes a built-in: interns its type, appends its global variable
    /// and stage-interface slot, registers the global lookup, caches the
    /// reference expression in the scope, and returns that reference.
    pub fn add_builtin(
        &mut self,
        ctx: &mut Context,
        name: &str,
        data: BuiltInData,
        meta: Span,
    ) -> (r: Option<VariableReference>)
        requires
            old(self).wf(),
            old(ctx).wf(),
        ensures
            final(self).wf(),
            final(ctx).wf(),
            final(self).errors@ == old(self).errors@,
            final(self).lookup_type@ == old(self).lookup_type@,
            final(self).stage == old(self).stage,
            final(self).module.constants@ == old(self).module.constants@,
            final(self).module.types@ == interned_types(
                old(self).module.types@,
                Type { name: None, inner: data.inner },
            ),
            final(ctx).locals@ == old(ctx).locals@,
            final(ctx).scopes@ == old(ctx).scopes@,
            ({
                let ty = TypeHandle {
                    index: intern_index(
                        old(self).module.types@,
                        Type { name: None, inner: data.inner },
                    ) as usize,
                };
                let handle = GlobalHandle {
                    index: old(self).module.global_variables@.len() as usize,
                };
                let idx = old(self).entry_args@.len() as usize;
                let reference = VariableReference {
                    expr: ExpressionHandle { index: old(ctx).expressions@.len() as usize },
                    load: true,
                    mutable: data.mutable,
                    constant: None,
                    entry_arg: Some(idx),
                };
                &&& final(self).module.global_variables@.len() == old(self).module.global_variables@.len() + 1
                &&& final(self).module.global_variables@.drop_last() == old(self).module.global_variables@
                &&& builtin_global(final(self).module.global_variables@.last(), name@, ty)
                &&& final(self).entry_args@ == old(self).entry_args@.push(
                    EntryArg {
                        name: None,
                        binding: Binding::BuiltIn(data.builtin),
                        handle,
                        storage: data.storage,
                    },
                )
                &&& final(self).global_variables@.len() == old(self).global_variables@.len() + 1
                &&& final(self).global_variables@.drop_last() == old(self).global_variables@
                &&& final(self).global_variables@.last().name@ == name@
                &&& final(self).global_variables@.last().lookup == GlobalLookup {
                    kind: GlobalLookupKind::Variable(handle),
                    entry_arg: Some(idx),
                    mutable: data.mutable,
                }
                &&& final(ctx).expressions@ == old(ctx).expressions@.push(
                    Expression::GlobalVariable(handle),
                )
                &&& final(ctx).resolutions@ == old(ctx).resolutions@.push(
                    ResolvedType { ty, pointer: true },
                )
                &&& final(ctx).global_refs@.len() == old(ctx).global_refs@.len() + 1
                &&& final(ctx).global_refs@.drop_last() == old(ctx).global_refs@
                &&& final(ctx).global_refs@.last().name@ == name@
                &&& final(ctx).global_refs@.last().var == reference
                &&& scope_find(final(ctx).global_refs@, name@) == Some(reference)
                &&& r == Some(reference)
            }),
    {
        let _ = meta;
        let ty = self.module.insert_type(Type { name: None, inner: data.inner });
        let handle = self.module.append_global(
            GlobalVariable {
                name: Some(name.to_owned()),
                space: AddressSpace::Private,
                binding: None,
                ty,
                init: None,
            },
        );
        let idx = self.entry_args.len();
        self.entry_args.push(
            EntryArg {
                name: None,
                binding: Binding::BuiltIn(data.builtin),
                handle,
                storage: data.storage,
            },
        );
        let lookup = GlobalLookup {
            kind: GlobalLookupKind::Variable(handle),
            entry_arg: Some(idx),
            mutable: data.mutable,
        };
        self.global_variables.push(GlobalEntry { name: name.to_owned(), lookup });
        proof {
            assert(self.module.global_variables@.drop_last() =~= old(self).module.global_variables@);
            assert(self.global_variables@.drop_last() =~= old(self).global_variables@);
        }
        ctx.add_global(&self.module, name, lookup);
        ctx.lookup_global_var(name)
    }
}


impl Parser {
    /// Resolves an identifier: innermost-to-outermost local scope, then the
    /// cached global scope, then the built-in catalog, whose first hit
    /// materializes the built-in exactly once (later lookups of the same name
    /// hit the cache and allocate nothing). `None` means no source recognizes
    /// the name.
    pub fn lookup_variable(&mut self, ctx: &mut Context, name: &str, meta: Span) -> (r: Option<
        VariableReference,
    >)
        requires
            old(self).wf(),
            old(ctx).wf(),
        ensures
            final(self).wf(),
            final(ctx).wf(),
            final(self).errors@ == old(self).errors@,
            final(self).lookup_type@ == old(self).lookup_type@,
            final(self).stage == old(self).stage,
            final(self).module.constants@ == old(self).module.constants@,
            final(ctx).locals@ == old(ctx).locals@,
            final(ctx).scopes@ == old(ctx).scopes@,
            scopes_find(old(ctx).scopes@, name@) matches Some(v) ==> r == Some(v) && *final(self)
                == *old(self) && *final(ctx) == *old(ctx),
            scopes_find(old(ctx).scopes@, name@) is None && scope_find(
                old(ctx).global_refs@,
                name@,
            ) is Some ==> r == scope_find(old(ctx).global_refs@, name@) && *final(self) == *old(self) && *final(ctx) == *old(ctx),
            scopes_find(old(ctx).scopes@, name@) is None && scope_find(
                old(ctx).global_refs@,
                name@,
            ) is None && builtin_data_spec(
                name@,
                old(self).stage,
                builtin_base(old(self).module.types@, name@),
            ) is None ==> r is None && *final(self) == *old(self) && *final(ctx) == *old(ctx),
            scopes_find(old(ctx).scopes@, name@) is None && scope_find(
                old(ctx).global_refs@,
                name@,
            ) is None && builtin_data_spec(
                name@,
                old(self).stage,
                builtin_base(old(self).module.types@, name@),
            ) is Some ==> ({
                let data = builtin_data_spec(
                    name@,
                    old(self).stage,
                    builtin_base(old(self).module.types@, name@),
                )->Some_0;
                let types1 = builtin_types_pre(old(self).module.types@, name@);
                let ty = TypeHandle {
                    index: intern_index(types1, Type { name: None, inner: data.inner }) as usize,
                };
                let handle = GlobalHandle {
                    index: old(self).module.global_variables@.len() as usize,
                };
                let idx = old(self).entry_args@.len() as usize;
                let reference = VariableReference {
                    expr: ExpressionHandle { index: old(ctx).expressions@.len() as usize },
                    load: true,
                    mutable: data.mutable,
                    constant: None,
                    entry_arg: Some(idx),
                };
                &&& final(self).module.types@ == interned_types(
                    types1,
                    Type { name: None, inner: data.inner },
                )
                &&& final(self).module.global_variables@.len() == old(self).module.global_variables@.len() + 1
                &&& final(self).module.global_variables@.drop_last() == old(self).module.global_variables@
                &&& builtin_global(final(self).module.global_variables@.last(), name@, ty)
                &&& final(self).entry_args@ == old(self).entry_args@.push(
                    EntryArg {
                        name: None,
                        binding: Binding::BuiltIn(data.builtin),
                        handle,
                        storage: data.storage,
                    },
                )
                &&& final(self).global_variables@.len() == old(self).global_variables@.len() + 1
                &&& final(self).global_variables@.drop_last() == old(self).global_variables@
                &&& final(self).global_variables@.last().name@ == name@
                &&& final(self).global_variables@.last().lookup == GlobalLookup {
                    kind: GlobalLookupKind::Variable(handle),
                    entry_arg: Some(idx),
                    mutable: data.mutable,
                }
                &&& final(ctx).expressions@ == old(ctx).expressions@.push(
                    Expression::GlobalVariable(handle),
                )
                &&& final(ctx).resolutions@ == old(ctx).resolutions@.push(
                    ResolvedType { ty, pointer: true },
                )
                &&& final(ctx).global_refs@.len() == old(ctx).global_refs@.len() + 1
                &&& final(ctx).global_refs@.drop_last() == old(ctx).global_refs@
                &&& final(ctx).global_refs@.last().name@ == name@
                &&& final(ctx).global_refs@.last().var == reference
                &&& scope_find(final(ctx).global_refs@, name@) == Some(reference)
                &&& r == Some(reference)
            }),
    {
        if let Some(local_var) = ctx.lookup_local_var(name) {
            return Some(local_var);
        }
        if let Some(global_var) = ctx.lookup_global_var(name) {
            return Some(global_var);
        }
        let clip_cull = crate::context::str_eq(name, "gl_ClipDistance") || crate::context::str_eq(
            name,
            "gl_CullDistance",
        );
        let base = if clip_cull {
            self.module.insert_type(
                Type { name: None, inner: TypeInner::Scalar { kind: ScalarKind::Float, width: 4 } },
            )
        } else {
            TypeHandle { index: 0 }
        };
        match builtin_data(name, self.stage, base) {
            Some(data) => self.add_builtin(ctx, name, data, meta),
            None => None,
        }
    }
}


/// The component index a letter denotes in one of the three swizzle
/// alphabets (`xyzw`, `rgba`, `stpq`).
pub open spec fn letter_index(c: char, which: int) -> Option<u32> {
    if which == 0 {
        if c == 'x' {
            Some(0u32)
        } else if c == 'y' {
            Some(1u32)
        } else if c == 'z' {
            Some(2u32)
        } else if c == 'w' {
            Some(3u32)
        } else {
            None
        }
    } else if which == 1 {
        if c == 'r' {
            Some(0u32)
        } else if c == 'g' {
            Some(1u32)
        } else if c == 'b' {
            Some(2u32)
        } else if c == 'a' {
            Some(3u32)
        } else {
            None
        }
    } else {
        if c == 's' {
            Some(0u32)
        } else if c == 't' {
            Some(1u32)
        } else if c == 'p' {
            Some(2u32)
        } else if c == 'q' {
            Some(3u32)
        } else {
            None
        }
    }
}

/// The components a field name spells in one alphabet, when every letter
/// resolves there and every index fits the vector.
pub open spec fn alpha_components(name: Seq<char>, size: u32, which: int) -> Option<
    Seq<SwizzleComponent>,
>
    decreases name.len(),
{
    if name.len() == 0 {
        Some(Seq::empty())
    } else {
        match (alpha_components(name.drop_last(), size, which), letter_index(name.last(), which)) {
            (Some(rest), Some(i)) => if i < size {
                Some(rest.push(SwizzleComponent::spec_from_index(i)))
            } else {
                None
            },
            _ => None,
        }
    }
}

/// The components a field name spells on a vector of `size` components:
/// the alphabets are tried in order, and the whole name must resolve within
/// one of them.
pub open spec fn swizzle_components(name: Seq<char>, size: u32) -> Option<Seq<SwizzleComponent>> {
    if alpha_components(name, size, 0) is Some {
        alpha_components(name, size, 0)
    } else if alpha_components(name, size, 1) is Some {
        alpha_components(name, size, 1)
    } else {
        alpha_components(name, size, 2)
    }
}

/// Some component occurs twice.
pub open spec fn has_dup(comps: Seq<SwizzleComponent>) -> bool {
    exists|i: int, j: int| 0 <= i < j < comps.len() && comps[i] == comps[j]
}

/// The pattern slot for position `k`: the named component, or the filler for
/// unused slots.
pub open spec fn padded(comps: Seq<SwizzleComponent>, k: int) -> SwizzleComponent {
    if k < comps.len() {
        comps[k]
    } else {
        SwizzleComponent::X
    }
}

/// A component re-indexed through the base expression when that base is
/// itself a swizzle (flattening); otherwise unchanged.
pub open spec fn flat_through(exprs: Seq<Expression>, e: ExpressionHandle, c: SwizzleComponent)
    -> SwizzleComponent {
    match exprs[e.index as int] {
        Expression::Swizzle { pattern, .. } => pattern@[c.spec_index_of() as int],
        _ => c,
    }
}

/// The vector a swizzle of `e` operates on: the base of `e` when `e` is
/// itself a swizzle (flattening), otherwise `e`.
pub open spec fn flat_vector(exprs: Seq<Expression>, e: ExpressionHandle) -> ExpressionHandle {
    match exprs[e.index as int] {
        Expression::Swizzle { vector, .. } => vector,
        _ => e,
    }
}

/// The full four-slot pattern a swizzle of `e` by `comps` stores: padded,
/// then re-indexed through `e`'s own pattern when `e` is a swizzle.
pub open spec fn final_pattern(
    exprs: Seq<Expression>,
    e: ExpressionHandle,
    comps: Seq<SwizzleComponent>,
) -> Seq<SwizzleComponent> {
    Seq::new(4, |k: int| flat_through(exprs, e, padded(comps, k)))
}

/// The expression a single-component access indexes: the flattened vector,
/// unwrapped once more through a load in an lvalue context.
pub open spec fn single_base(exprs: Seq<Expression>, e: ExpressionHandle, lhs: bool)
    -> ExpressionHandle {
    let fv = flat_vector(exprs, e);
    if lhs && 0 <= fv.index < exprs.len() && exprs[fv.index as int] is Load {
        exprs[fv.index as int]->Load_pointer
    } else {
        fv
    }
}

/// `i` is the first member of the struct named `name`.
pub open spec fn member_at(members: Seq<StructMember>, name: Seq<char>, i: int) -> bool {
    &&& 0 <= i < members.len()
    &&& members[i].name matches Some(n) && n@ == name
    &&& forall|j: int|
        0 <= j < i ==> !((#[trigger] members[j].name) matches Some(n2) && n2@ == name)
}

pub open spec fn has_member(members: Seq<StructMember>, name: Seq<char>) -> bool {
    exists|i: int|
        0 <= i < members.len() && ((#[trigger] members[i].name) matches Some(n) && n@ == name)
}

/// A name of at most four components fails in no alphabet once a prefix does.
proof fn lemma_alpha_none_mono(name: Seq<char>, size: u32, which: int, i: int)
    requires
        0 <= i <= name.len(),
        alpha_components(name.take(i), size, which) is None,
    ensures
        alpha_components(name, size, which) is None,
    decreases name.len() - i,
{
    if i == name.len() {
        assert(name.take(i) =~= name);
    } else {
        assert(name.take(i + 1).drop_last() =~= name.take(i));
        lemma_alpha_none_mono(name, size, which, i + 1);
    }
}

/// Executable letter lookup, deciding `letter_index`.
fn letter_of(c: char, which: u8) -> (r: Option<u32>)
    ensures
        r == letter_index(c, which as int),
{
    if which == 0 {
        if c == 'x' {
            Some(0)
        } else if c == 'y' {
            Some(1)
        } else if c == 'z' {
            Some(2)
        } else if c == 'w' {
            Some(3)
        } else {
            None
        }
    } else if which == 1 {
        if c == 'r' {
            Some(0)
        } else if c == 'g' {
            Some(1)
        } else if c == 'b' {
            Some(2)
        } else if c == 'a' {
            Some(3)
        } else {
            None
        }
    } else {
        if c == 's' {
            Some(0)
        } else if c == 't' {
            Some(1)
        } else if c == 'p' {
            Some(2)
        } else if c == 'q' {
            Some(3)
        } else {
            None
        }
    }
}

/// Resolves a field name within one alphabet, deciding `alpha_components`.
fn check_swizzle(name: &str, size: u32, which: u8) -> (r: Option<Vec<SwizzleComponent>>)
    ensures
        r matches Some(v) ==> alpha_components(name@, size, which as int) == Some(v@),
        r is None ==> alpha_components(name@, size, which as int) is None,
{
    let n = name.unicode_len();
    let mut comps: Vec<SwizzleComponent> = Vec::new();
    let mut i: usize = 0;
    proof {
        assert(name@.take(0) =~= Seq::<char>::empty());
    }
    while i < n
        invariant
            i <= n,
            n == name@.len(),
            comps@.len() == i,
            alpha_components(name@.take(i as int), size, which as int) == Some(comps@),
        decreases n - i,
    {
        let c = name.get_char(i);
        let step = letter_of(c, which);
        match step {
            Some(idx) => {
                if idx < size {
                    comps.push(SwizzleComponent::from_index(idx));
                    proof {
                        assert(name@.take(i as int + 1).drop_last() =~= name@.take(i as int));
                        assert(name@.take(i as int + 1).last() == name@[i as int]);
                    }
                } else {
                    proof {
                        assert(name@.take(i as int + 1).drop_last() =~= name@.take(i as int));
                        assert(name@.take(i as int + 1).last() == name@[i as int]);
                        assert(alpha_components(name@.take(i as int + 1), size, which as int)
                            is None);
                        lemma_alpha_none_mono(name@, size, which as int, i as int + 1);
                    }
                    return None;
                }
            },
            None => {
                proof {
                    assert(name@.take(i as int + 1).drop_last() =~= name@.take(i as int));
                    assert(name@.take(i as int + 1).last() == name@[i as int]);
                    assert(alpha_components(name@.take(i as int + 1), size, which as int) is None);
                    lemma_alpha_none_mono(name@, size, which as int, i as int + 1);
                }
                return None;
            },
        }
        i += 1;
    }
    proof {
        assert(name@.take(n as int) =~= name@);
    }
    Some(comps)
}

/// Tries the three alphabets in order, deciding `swizzle_components`.
fn swizzle_match(name: &str, size: u32) -> (r: Option<Vec<SwizzleComponent>>)
    ensures
        r matches Some(v) ==> swizzle_components(name@, size) == Some(v@),
        r is None ==> swizzle_components(name@, size) is None,
{
    if let Some(v) = check_swizzle(name, size, 0) {
        return Some(v);
    }
    if let Some(v) = check_swizzle(name, size, 1) {
        return Some(v);
    }
    check_swizzle(name, size, 2)
}

/// Whether any component repeats, deciding `has_dup`.
fn has_duplicate(comps: &Vec<SwizzleComponent>) -> (r: bool)
    ensures
        r == has_dup(comps@),
{
    let n = comps.len();
    let mut i: usize = 0;
    while i < n
        invariant
            i <= n,
            n == comps@.len(),
            forall|p: int, q: int| 0 <= p < q < n && p < i ==> comps@[p] != comps@[q],
        decreases n - i,
    {
        let mut j: usize = i + 1;
        while j < n
            invariant
                i < j <= n || (i + 1 == j && j > n),
                i < n,
                n == comps@.len(),
                forall|p: int, q: int| 0 <= p < q < n && p < i ==> comps@[p] != comps@[q],
                forall|q: int| i < q < j ==> comps@[i as int] != comps@[q],
            decreases n - j,
        {
            if comps[i] == comps[j] {
                assert(has_dup(comps@));
                return true;
            }
            j += 1;
        }
        i += 1;
    }
    false
}



/// Finds the first struct member named `name`.
fn find_member(members: &Vec<StructMember>, name: &str) -> (r: Option<usize>)
    ensures
        r matches Some(i) ==> member_at(members@, name@, i as int),
        r is None ==> !has_member(members@, name@),
{
    let count = members.len();
    let mut index: usize = 0;
    while index < count
        invariant
            index <= count,
            count == members@.len(),
            forall|j: int|
                0 <= j < index ==> !((#[trigger] members@[j].name) matches Some(n2) && n2@
                    == name@),
        decreases count - index,
    {
        let matches_name = match &members[index].name {
            Some(member_name) => crate::context::str_eq(member_name.as_str(), name),
            None => false,
        };
        if matches_name {
            assert(member_at(members@, name@, index as int));
            return Some(index);
        }
        index += 1;
    }
    assert forall|i: int|
        0 <= i < members@.len() implies !((#[trigger] members@[i].name) matches Some(n) && n@
        == name@) by {}
    None
}

impl Parser {
    /// Resolves `.name` on a base expression: a member access on a struct, a
    /// component access or swizzle on a vector (nested swizzles are flattened
    /// into one pattern; a base behind a pointer is loaded first, since
    /// swizzles cannot operate on pointers), and a fatal error on anything
    /// else. In an lvalue context a repeated component is a recoverable
    /// diagnostic.
    pub fn field_selection(
        &mut self,
        ctx: &mut Context,
        lhs: bool,
        expression: ExpressionHandle,
        name: &str,
        meta: Span,
    ) -> (r: Result<ExpressionHandle, Error>)
        requires
            old(self).wf(),
            old(ctx).wf(),
            expression.index < old(ctx).expressions@.len(),
            old(ctx).resolutions@[expression.index as int].ty.index < old(self).module.types@.len(),
            old(ctx).expressions@[expression.index as int] matches Expression::Swizzle {
                vector,
                ..
            } ==> vector.index < old(ctx).expressions@.len(),
            old(self).module.types@[old(ctx).resolutions@[expression.index as int].ty.index as int].inner
                matches TypeInner::Struct { members, .. } ==> members@.len() <= u32::MAX,
        ensures
            final(self).wf(),
            final(ctx).wf(),
            final(self).lookup_type@ == old(self).lookup_type@,
            final(self).stage == old(self).stage,
            final(self).module.constants@ == old(self).module.constants@,
            final(self).module.global_variables@ == old(self).module.global_variables@,
            final(self).entry_args@ == old(self).entry_args@,
            final(self).global_variables@ == old(self).global_variables@,
            final(self).errors@.len() >= old(self).errors@.len(),
            final(self).errors@.take(old(self).errors@.len() as int) == old(self).errors@,
            final(ctx).locals@ == old(ctx).locals@,
            final(ctx).scopes@ == old(ctx).scopes@,
            final(ctx).global_refs@ == old(ctx).global_refs@,
            final(ctx).expressions@.len() >= old(ctx).expressions@.len(),
            final(ctx).expressions@.take(old(ctx).expressions@.len() as int) == old(ctx).expressions@,
            final(ctx).resolutions@.take(old(ctx).resolutions@.len() as int) == old(ctx).resolutions@,
            ({
                let rt = old(ctx).resolutions@[expression.index as int];
                let inner = old(self).module.types@[rt.ty.index as int].inner;
                let exprs0 = old(ctx).expressions@;
                let types0 = old(self).module.types@;
                let errs0 = old(self).errors@;
                &&& (inner matches TypeInner::Struct { members, .. } ==> {
                    &&& (!has_member(members@, name@) ==> (r matches Err(e) && e.meta == meta && (
                    e.kind matches ErrorKind::UnknownField(n) && n@ == name@)) && *final(ctx)
                        == *old(ctx) && *final(self) == *old(self))
                    &&& (forall|i: int|
                        #[trigger] member_at(members@, name@, i) ==> r == Ok::<
                            ExpressionHandle,
                            Error,
                        >(ExpressionHandle { index: exprs0.len() as usize }) && final(ctx).expressions@ == exprs0.push(
                            Expression::AccessIndex { base: expression, index: i as u32 },
                        ) && final(ctx).resolutions@ == old(ctx).resolutions@.push(
                            ResolvedType { ty: members@[i].ty, pointer: rt.pointer },
                        ) && final(self).module.types@ == types0 && final(self).errors@ == errs0)
                })
                &&& (inner matches TypeInner::Vector { size, kind, width } ==> {
                    let comps_opt = swizzle_components(name@, size.spec_count());
                    &&& (comps_opt is None ==> (r matches Err(e) && e.meta == meta && e.kind
                        == ErrorKind::SemanticError(SemanticErrorKind::InvalidSwizzle)) && *final(ctx) == *old(ctx) && *final(self) == *old(self))
                    &&& (comps_opt matches Some(comps) ==> {
                        let dup_err = lhs && has_dup(comps);
                        let size_err = comps.len() == 0 || comps.len() > 4;
                        let dup_diag = Error {
                            kind: ErrorKind::SemanticError(
                                SemanticErrorKind::DuplicateLvalueSwizzle,
                            ),
                            meta,
                        };
                        let size_diag = Error {
                            kind: ErrorKind::SemanticError(SemanticErrorKind::BadSwizzleSize),
                            meta,
                        };
                        &&& (!dup_err && !size_err ==> final(self).errors@ == errs0)
                        &&& (dup_err && !size_err ==> final(self).errors@ == errs0.push(dup_diag))
                        &&& (!dup_err && size_err ==> final(self).errors@ == errs0.push(size_diag))
                        &&& (dup_err && size_err ==> final(self).errors@ == errs0.push(
                            dup_diag,
                        ).push(size_diag))
                        &&& (comps.len() == 1 ==> r == Ok::<ExpressionHandle, Error>(
                            ExpressionHandle { index: exprs0.len() as usize },
                        ) && final(ctx).expressions@ == exprs0.push(
                            Expression::AccessIndex {
                                base: single_base(exprs0, expression, lhs),
                                index: flat_through(
                                    exprs0,
                                    expression,
                                    comps[0],
                                ).spec_index_of() as u32,
                            },
                        ) && final(ctx).resolutions@ == old(ctx).resolutions@.push(
                            ResolvedType {
                                ty: TypeHandle {
                                    index: intern_index(
                                        types0,
                                        Type { name: None, inner: TypeInner::Scalar { kind, width } },
                                    ) as usize,
                                },
                                pointer: rt.pointer,
                            },
                        ) && final(self).module.types@ == interned_types(
                            types0,
                            Type { name: None, inner: TypeInner::Scalar { kind, width } },
                        ))
                        &&& (comps.len() != 1 ==> {
                            let size2 = if comps.len() == 2 {
                                VectorSize::Bi
                            } else if comps.len() == 3 {
                                VectorSize::Tri
                            } else {
                                VectorSize::Quad
                            };
                            let vec_ty = Type {
                                name: None,
                                inner: TypeInner::Vector { size: size2, kind, width },
                            };
                            let fv = flat_vector(exprs0, expression);
                            let pattern = final_pattern(exprs0, expression, comps);
                            &&& final(self).module.types@ == interned_types(types0, vec_ty)
                            &&& (!rt.pointer ==> ({
                                &&& r == Ok::<ExpressionHandle, Error>(
                                    ExpressionHandle { index: exprs0.len() as usize },
                                )
                                &&& final(ctx).expressions@.len() == exprs0.len() + 1
                                &&& (final(ctx).expressions@.last()
                                    matches Expression::Swizzle { size: s2, vector: v2, pattern: p2 }
                                    && s2 == size2 && v2 == fv && p2@ == pattern)
                                &&& final(ctx).resolutions@ == old(ctx).resolutions@.push(
                                    ResolvedType {
                                        ty: TypeHandle {
                                            index: intern_index(types0, vec_ty) as usize,
                                        },
                                        pointer: false,
                                    },
                                )
                            }))
                            &&& (rt.pointer ==> ({
                                &&& r == Ok::<ExpressionHandle, Error>(
                                    ExpressionHandle { index: (exprs0.len() + 1) as usize },
                                )
                                &&& final(ctx).expressions@.len() == exprs0.len() + 2
                                &&& final(ctx).expressions@[exprs0.len() as int]
                                    == (Expression::Load { pointer: fv })
                                &&& (final(ctx).expressions@.last()
                                    matches Expression::Swizzle { size: s2, vector: v2, pattern: p2 }
                                    && s2 == size2 && v2 == (ExpressionHandle {
                                    index: exprs0.len() as usize,
                                }) && p2@ == pattern)
                                &&& final(ctx).resolutions@ == old(ctx).resolutions@.push(
                                    ResolvedType { ty: rt.ty, pointer: false },
                                ).push(
                                    ResolvedType {
                                        ty: TypeHandle {
                                            index: intern_index(types0, vec_ty) as usize,
                                        },
                                        pointer: false,
                                    },
                                )
                            }))
                        })
                    })
                })
                &&& (!(inner is Struct) && !(inner is Vector) ==> (r matches Err(e) && e.meta
                    == meta && e.kind == ErrorKind::SemanticError(
                    SemanticErrorKind::FieldOnNonAggregate,
                )) && *final(ctx) == *old(ctx) && *final(self) == *old(self))
            }),
    {
        let rt = ctx.resolutions[expression.index];
        let selection: (VectorSize, ScalarKind, u8) = match &self.module.types[rt.ty.index].inner {
            TypeInner::Struct { members, .. } => {
                let found = find_member(members, name);
                match found {
                    Some(i) => {
                        let member_ty = members[i].ty;
                        let handle = ctx.add_expression(
                            Expression::AccessIndex { base: expression, index: i as u32 },
                            member_ty,
                            rt.pointer,
                        );
                        return Ok(handle);
                    },
                    None => {
                        return Err(
                            Error { kind: ErrorKind::UnknownField(name.to_owned()), meta },
                        );
                    },
                }
            },
            TypeInner::Vector { size, kind, width } => (*size, *kind, *width),
            _ => {
                return Err(
                    Error {
                        kind: ErrorKind::SemanticError(SemanticErrorKind::FieldOnNonAggregate),
                        meta,
                    },
                );
            },
        };
        let (vsize, kind, width) = selection;
        let comps = match swizzle_match(name, vsize.count()) {
            Some(comps) => comps,
            None => {
                return Err(
                    Error {
                        kind: ErrorKind::SemanticError(SemanticErrorKind::InvalidSwizzle),
                        meta,
                    },
                );
            },
        };
        if lhs && has_duplicate(&comps) {
            self.errors.push(
                Error {
                    kind: ErrorKind::SemanticError(SemanticErrorKind::DuplicateLvalueSwizzle),
                    meta,
                },
            );
        }
        let mut pattern: Vec<SwizzleComponent> = Vec::new();
        let mut slot: usize = 0;
        while slot < 4
            invariant
                slot <= 4,
                pattern@.len() == slot,
                forall|k: int| 0 <= k < slot ==> pattern@[k] == padded(comps@, k),
            decreases 4 - slot,
        {
            if slot < comps.len() {
                pattern.push(comps[slot]);
            } else {
                pattern.push(SwizzleComponent::X);
            }
            slot += 1;
        }
        let mut vector_expr = expression;
        let is_base_swizzle = matches!(
            &ctx.expressions[expression.index],
            Expression::Swizzle { .. }
        );
        if is_base_swizzle {
            let (src_vector, src0, src1, src2, src3) = match &ctx.expressions[expression.index] {
                Expression::Swizzle { vector, pattern: src, .. } => (
                    *vector,
                    src[0],
                    src[1],
                    src[2],
                    src[3],
                ),
                _ => (expression, SwizzleComponent::X, SwizzleComponent::X, SwizzleComponent::X,
                SwizzleComponent::X),
            };
            let mut k: usize = 0;
            while k < 4
                invariant
                    k <= 4,
                    pattern@.len() == 4,
                    ctx.expressions@[expression.index as int] matches Expression::Swizzle {
                        pattern: sp,
                        ..
                    } && sp@.len() == 4 && sp@[0] == src0 && sp@[1] == src1 && sp@[2] == src2
                        && sp@[3] == src3,
                    forall|m: int|
                        0 <= m < k ==> pattern@[m] == flat_through(
                            ctx.expressions@,
                            expression,
                            padded(comps@, m),
                        ),
                    forall|m: int| k <= m < 4 ==> pattern@[m] == padded(comps@, m),
                decreases 4 - k,
            {
                let component = pattern[k];
                let idx = component.index_of() as usize;
                let mapped = if idx == 0 {
                    src0
                } else if idx == 1 {
                    src1
                } else if idx == 2 {
                    src2
                } else {
                    src3
                };
                pattern.set(k, mapped);
                k += 1;
            }
            vector_expr = src_vector;
        }
        proof {
            assert(vector_expr == flat_vector(ctx.expressions@, expression));
            assert forall|m: int| 0 <= m < 4 implies pattern@[m] == flat_through(
                ctx.expressions@,
                expression,
                padded(comps@, m),
            ) by {}
            assert(pattern@ =~= final_pattern(ctx.expressions@, expression, comps@));
        }
        if comps.len() == 1 {
            let mut base_expr = vector_expr;
            if lhs {
                if let Expression::Load { pointer } = &ctx.expressions[vector_expr.index] {
                    base_expr = *pointer;
                }
            }
            proof {
                assert(base_expr == single_base(ctx.expressions@, expression, lhs));
            }
            let scalar_ty = self.module.insert_type(
                Type { name: None, inner: TypeInner::Scalar { kind, width } },
            );
            let handle = ctx.add_expression(
                Expression::AccessIndex { base: base_expr, index: pattern[0].index_of() },
                scalar_ty,
                rt.pointer,
            );
            return Ok(handle);
        }
        let size2 = if comps.len() == 2 {
            VectorSize::Bi
        } else if comps.len() == 3 {
            VectorSize::Tri
        } else if comps.len() == 4 {
            VectorSize::Quad
        } else {
            self.errors.push(
                Error { kind: ErrorKind::SemanticError(SemanticErrorKind::BadSwizzleSize), meta },
            );
            VectorSize::Quad
        };
        let mut final_vector = vector_expr;
        if rt.pointer {
            final_vector = ctx.add_expression(Expression::Load { pointer: vector_expr }, rt.ty, false);
        }
        let vec_ty = self.module.insert_type(
            Type { name: None, inner: TypeInner::Vector { size: size2, kind, width } },
        );
        let handle = ctx.add_expression(
            Expression::Swizzle { size: size2, vector: final_vector, pattern },
            vec_ty,
            false,
        );
        Ok(handle)
    }
}


/// A copy of an optional name; the copy holds the same value.
fn clone_opt_name(n: &Option<String>) -> (r: Option<String>)
    ensures
        r == *n,
{
    match n {
        Some(s) => Some(s.clone()),
        None => None,
    }
}

/// The address space a module-scope declaration lands in, after the
/// normalization pass: explicit memory-access qualifiers narrow a storage
/// space's access; a uniform image or sampler moves to the opaque handle
/// space; a uniform with a `push_constant` layout flag becomes push-constant
/// data; the function pseudo-space normalizes to private.
pub open spec fn resolved_space(
    space0: AddressSpace,
    qualifiers: TypeQualifiers,
    inner: TypeInner,
) -> AddressSpace {
    let restricted = match qualifiers.storage_access {
        Some(pair) => pair.0,
        None => 0u32,
    };
    match space0 {
        AddressSpace::Storage { access } => AddressSpace::Storage {
            access: (access & !restricted) as u32,
        },
        AddressSpace::Uniform => if inner is Image || inner is Sampler {
            AddressSpace::Handle
        } else if claimed_flag(qualifiers.layout_qualifiers.entries@, "push_constant"@) {
            AddressSpace::PushConstant
        } else {
            AddressSpace::Uniform
        },
        AddressSpace::Function => AddressSpace::Private,
        _ => space0,
    }
}

/// Whether a space carries a resource binding.
pub open spec fn binding_bearing(space: AddressSpace) -> bool {
    space is Uniform || space is Storage || space is Handle
}

/// The resource binding of a binding-bearing global: the mandatory `binding`
/// layout value with the optional `set` (default group 0), or nothing when
/// `binding` is missing.
pub open spec fn resolved_binding(qualifiers: TypeQualifiers, space: AddressSpace) -> Option<
    ResourceBinding,
> {
    if binding_bearing(space) {
        match claimed_uint(qualifiers.layout_qualifiers.entries@, "binding"@) {
            Some(b) => Some(
                ResourceBinding {
                    group: match claimed_uint(qualifiers.layout_qualifiers.entries@, "set"@) {
                        Some(g) => g,
                        None => 0,
                    },
                    binding: b,
                },
            ),
            None => None,
        }
    } else {
        None
    }
}

impl Parser {
    /// Materializes a module-scope declaration. Inputs and outputs become
    /// private globals with a stage-interface slot; `const` requires an
    /// initializer (fatal without one) and registers the constant itself;
    /// address-space globals get their space normalized per `resolved_space`
    /// and, in binding-bearing spaces, a mandatory `binding` layout value
    /// whose absence is one recoverable diagnostic. A named declaration is
    /// registered in the scope and in the flat global-name table; layout
    /// pairs no branch claimed are reported as unused.
    #[verifier::rlimit(100)]
    #[verifier::spinoff_prover]
    pub fn add_global_var(&mut self, ctx: &mut Context, decl: VarDeclaration) -> (r: Result<
        GlobalOrConstant,
        Error,
    >)
        requires
            old(self).wf(),
            old(ctx).wf(),
            decl.qualifiers.wf(),
            decl.ty.index < old(self).module.types@.len(),
        ensures
            final(self).wf(),
            final(ctx).wf(),
            final(self).lookup_type@ == old(self).lookup_type@,
            final(self).stage == old(self).stage,
            final(self).module.types@ == old(self).module.types@,
            final(self).module.constants@ == old(self).module.constants@,
            final(self).errors@.len() >= old(self).errors@.len(),
            final(self).errors@.take(old(self).errors@.len() as int) == old(self).errors@,
            final(ctx).locals@ == old(ctx).locals@,
            final(ctx).scopes@ == old(ctx).scopes@,
            (r is Err) <==> (decl.qualifiers.storage.0 == StorageQualifier::Const
                && decl.init is None),
            decl.qualifiers.storage.0 == StorageQualifier::Const && decl.init is None ==> r
                == Err::<GlobalOrConstant, Error>(
                Error {
                    kind: ErrorKind::SemanticError(SemanticErrorKind::MissingConstInitializer),
                    meta: decl.meta,
                },
            ) && *final(self) == *old(self) && *final(ctx) == *old(ctx),
            ({
                let storage = decl.qualifiers.storage.0;
                let entries0 = decl.qualifiers.layout_qualifiers.entries@;
                let gv0 = old(self).module.global_variables@;
                let handle = GlobalHandle { index: gv0.len() as usize };
                &&& ((storage == StorageQualifier::Input || storage == StorageQualifier::Output)
                    ==> ({
                    let idx = old(self).entry_args@.len() as usize;
                    let location = match claimed_uint(entries0, "location"@) {
                        Some(v) => v,
                        None => 0u64,
                    };
                    let interpolation = match decl.qualifiers.interpolation {
                        Some(pair) => Some(pair.0),
                        None => match old(self).module.types@[decl.ty.index as int].inner.spec_scalar_kind() {
                            Some(ScalarKind::Float) => Some(Interpolation::Perspective),
                            Some(_) => Some(Interpolation::Flat),
                            None => None,
                        },
                    };
                    let sampling = match decl.qualifiers.sampling {
                        Some(pair) => Some(pair.0),
                        None => None,
                    };
                    let lookup = GlobalLookup {
                        kind: GlobalLookupKind::Variable(handle),
                        entry_arg: Some(idx),
                        mutable: storage == StorageQualifier::Output,
                    };
                    &&& final(self).module.global_variables@ == gv0.push(
                        GlobalVariable {
                            name: decl.name,
                            space: AddressSpace::Private,
                            binding: None,
                            ty: decl.ty,
                            init: decl.init,
                        },
                    )
                    &&& final(self).entry_args@ == old(self).entry_args@.push(
                        EntryArg {
                            name: decl.name,
                            binding: Binding::Location { location, interpolation, sampling },
                            handle,
                            storage,
                        },
                    )
                    &&& r == Ok::<GlobalOrConstant, Error>(GlobalOrConstant::Global(handle))
                    &&& registered(*old(self), *final(self), *old(ctx), *final(ctx), decl.name, lookup)
                    &&& final(self).errors@ == old(self).errors@ + uint_claim_errors(
                        entries0,
                        "location"@,
                    ) + remove_skey(entries0, "location"@).map_values(
                        |e: QualifierEntry| unused_error(e),
                    )
                }))
                &&& (storage == StorageQualifier::Const && decl.init is Some ==> ({
                    let init = decl.init->Some_0;
                    let lookup = GlobalLookup {
                        kind: GlobalLookupKind::Constant(init, decl.ty),
                        entry_arg: None,
                        mutable: false,
                    };
                    &&& final(self).module.global_variables@ == gv0
                    &&& final(self).entry_args@ == old(self).entry_args@
                    &&& r == Ok::<GlobalOrConstant, Error>(GlobalOrConstant::Constant(init))
                    &&& registered(*old(self), *final(self), *old(ctx), *final(ctx), decl.name, lookup)
                    &&& final(self).errors@ == old(self).errors@ + entries0.map_values(
                        |e: QualifierEntry| unused_error(e),
                    )
                }))
                &&& (storage matches StorageQualifier::AddressSpace(space0) ==> ({
                    let inner = old(self).module.types@[decl.ty.index as int].inner;
                    let space = resolved_space(space0, decl.qualifiers, inner);
                    let binding = resolved_binding(decl.qualifiers, space);
                    let lookup = GlobalLookup {
                        kind: GlobalLookupKind::Variable(handle),
                        entry_arg: None,
                        mutable: true,
                    };
                    &&& final(self).module.global_variables@ == gv0.push(
                        GlobalVariable {
                            name: decl.name,
                            space,
                            binding,
                            ty: decl.ty,
                            init: decl.init,
                        },
                    )
                    &&& final(self).entry_args@ == old(self).entry_args@
                    &&& r == Ok::<GlobalOrConstant, Error>(GlobalOrConstant::Global(handle))
                    &&& registered(*old(self), *final(self), *old(ctx), *final(ctx), decl.name, lookup)
                    &&& ({
                        let pc_claimed = space0 is Uniform && !(inner is Image) && !(
                        inner is Sampler);
                        let pc_errs = if pc_claimed {
                            flag_claim_errors(entries0, "push_constant"@)
                        } else {
                            Seq::<Error>::empty()
                        };
                        let entries_pc = if pc_claimed {
                            remove_skey(entries0, "push_constant"@)
                        } else {
                            entries0
                        };
                        let bearing = binding_bearing(space);
                        let bind_errs = if bearing {
                            uint_claim_errors(entries_pc, "binding"@)
                        } else {
                            Seq::<Error>::empty()
                        };
                        let entries_bind = if bearing {
                            remove_skey(entries_pc, "binding"@)
                        } else {
                            entries_pc
                        };
                        let missing = if bearing && claimed_uint(entries0, "binding"@) is None {
                            seq![
                                Error {
                                    kind: ErrorKind::SemanticError(
                                        SemanticErrorKind::MissingBindingLayout,
                                    ),
                                    meta: decl.meta,
                                },
                            ]
                        } else {
                            Seq::<Error>::empty()
                        };
                        let set_errs = if bearing {
                            uint_claim_errors(entries_bind, "set"@)
                        } else {
                            Seq::<Error>::empty()
                        };
                        let entries_set = if bearing {
                            remove_skey(entries_bind, "set"@)
                        } else {
                            entries_bind
                        };
                        final(self).errors@ == old(self).errors@ + pc_errs + bind_errs + missing
                            + set_errs + entries_set.map_values(
                            |e: QualifierEntry| unused_error(e),
                        )
                    })
                }))
            }),
    {
        let VarDeclaration { mut qualifiers, ty, name, init, meta } = decl;
        let ghost entries_in = qualifiers.layout_qualifiers.entries@;
        let ghost errs_in = self.errors@;
        let storage = qualifiers.storage.0;
        let (ret, lookup) = match storage {
            StorageQualifier::Input | StorageQualifier::Output => {
                let input = matches!(storage, StorageQualifier::Input);
                let location = match qualifiers.uint_layout_qualifier("location", &mut self.errors)
                {
                    Some(v) => v,
                    None => 0,
                };
                proof {
                    assert(self.errors@ =~= errs_in + uint_claim_errors(entries_in, "location"@));
                    assert(qualifiers.layout_qualifiers.entries@ =~= remove_skey(
                        entries_in,
                        "location"@,
                    ));
                }
                let interpolation = match qualifiers.interpolation {
                    Some((explicit, _)) => {
                        qualifiers.interpolation = None;
                        Some(explicit)
                    },
                    None => {
                        match self.module.types[ty.index].inner.scalar_kind() {
                            Some(kind) => {
                                if matches!(kind, ScalarKind::Float) {
                                    Some(Interpolation::Perspective)
                                } else {
                                    Some(Interpolation::Flat)
                                }
                            },
                            None => None,
                        }
                    },
                };
                let sampling = match qualifiers.sampling {
                    Some((explicit, _)) => {
                        qualifiers.sampling = None;
                        Some(explicit)
                    },
                    None => None,
                };
                let handle = self.module.append_global(
                    GlobalVariable {
                        name: clone_opt_name(&name),
                        space: AddressSpace::Private,
                        binding: None,
                        ty,
                        init,
                    },
                );
                let idx = self.entry_args.len();
                self.entry_args.push(
                    EntryArg {
                        name: clone_opt_name(&name),
                        binding: Binding::Location { location, interpolation, sampling },
                        handle,
                        storage,
                    },
                );
                let lookup = GlobalLookup {
                    kind: GlobalLookupKind::Variable(handle),
                    entry_arg: Some(idx),
                    mutable: !input,
                };
                (GlobalOrConstant::Global(handle), lookup)
            },
            StorageQualifier::Const => {
                let init = match init {
                    Some(init) => init,
                    None => {
                        return Err(
                            Error {
                                kind: ErrorKind::SemanticError(
                                    SemanticErrorKind::MissingConstInitializer,
                                ),
                                meta,
                            },
                        );
                    },
                };
                let lookup = GlobalLookup {
                    kind: GlobalLookupKind::Constant(init, ty),
                    entry_arg: None,
                    mutable: false,
                };
                (GlobalOrConstant::Constant(init), lookup)
            },
            StorageQualifier::AddressSpace(space0) => {
                let mut space = space0;
                match space {
                    AddressSpace::Storage { access } => {
                        let restricted = match qualifiers.storage_access {
                            Some((restricted_access, _)) => {
                                qualifiers.storage_access = None;
                                restricted_access
                            },
                            None => 0,
                        };
                        space = AddressSpace::Storage { access: access & !restricted };
                    },
                    AddressSpace::Uniform => {
                        let opaque = matches!(
                            self.module.types[ty.index].inner,
                            TypeInner::Image | TypeInner::Sampler { .. }
                        );
                        if opaque {
                            space = AddressSpace::Handle;
                        } else if qualifiers.none_layout_qualifier(
                            "push_constant",
                            &mut self.errors,
                        ) {
                            space = AddressSpace::PushConstant;
                        }
                    },
                    AddressSpace::Function => {
                        space = AddressSpace::Private;
                    },
                    _ => (),
                };
                let needs_binding = matches!(
                    space,
                    AddressSpace::Uniform | AddressSpace::Storage { .. } | AddressSpace::Handle
                );
                let binding = if needs_binding {
                    let binding_value = qualifiers.uint_layout_qualifier(
                        "binding",
                        &mut self.errors,
                    );
                    if binding_value.is_none() {
                        self.errors.push(
                            Error {
                                kind: ErrorKind::SemanticError(
                                    SemanticErrorKind::MissingBindingLayout,
                                ),
                                meta,
                            },
                        );
                    }
                    let set = qualifiers.uint_layout_qualifier("set", &mut self.errors);
                    match binding_value {
                        Some(b) => Some(
                            ResourceBinding {
                                group: match set {
                                    Some(g) => g,
                                    None => 0,
                                },
                                binding: b,
                            },
                        ),
                        None => None,
                    }
                } else {
                    None
                };
                proof {
                    reveal_strlit("push_constant");
                    reveal_strlit("binding");
                    reveal_strlit("set");
                    assert("push_constant"@.len() == 13 && "binding"@.len() == 7 && "set"@.len()
                        == 3);
                    let inner0 = self.module.types@[ty.index as int].inner;
                    let pc_claimed = space0 is Uniform && !(inner0 is Image) && !(
                    inner0 is Sampler);
                    let pc_errs = if pc_claimed {
                        flag_claim_errors(entries_in, "push_constant"@)
                    } else {
                        Seq::<Error>::empty()
                    };
                    let entries_pc = if pc_claimed {
                        remove_skey(entries_in, "push_constant"@)
                    } else {
                        entries_in
                    };
                    assert(errs_in + pc_errs =~= if pc_claimed {
                        errs_in + flag_claim_errors(entries_in, "push_constant"@)
                    } else {
                        errs_in
                    });
                    let bearing = binding_bearing(space);
                    let bind_errs = if bearing {
                        uint_claim_errors(entries_pc, "binding"@)
                    } else {
                        Seq::<Error>::empty()
                    };
                    let entries_bind = if bearing {
                        remove_skey(entries_pc, "binding"@)
                    } else {
                        entries_pc
                    };
                    let missing = if bearing && claimed_uint(entries_in, "binding"@) is None {
                        seq![
                            Error {
                                kind: ErrorKind::SemanticError(
                                    SemanticErrorKind::MissingBindingLayout,
                                ),
                                meta,
                            },
                        ]
                    } else {
                        Seq::<Error>::empty()
                    };
                    let set_errs = if bearing {
                        uint_claim_errors(entries_bind, "set"@)
                    } else {
                        Seq::<Error>::empty()
                    };
                    let entries_set = if bearing {
                        remove_skey(entries_bind, "set"@)
                    } else {
                        entries_bind
                    };
                    assert(self.errors@ =~= errs_in + pc_errs + bind_errs + missing + set_errs);
                    assert(qualifiers.layout_qualifiers.entries@ =~= entries_set);
                }
                let handle = self.module.append_global(
                    GlobalVariable { name: clone_opt_name(&name), space, binding, ty, init },
                );
                let lookup = GlobalLookup {
                    kind: GlobalLookupKind::Variable(handle),
                    entry_arg: None,
                    mutable: true,
                };
                (GlobalOrConstant::Global(handle), lookup)
            },
        };
        if let Some(present_name) = name {
            let registered_name = present_name.clone();
            ctx.add_global(&self.module, present_name.as_str(), lookup);
            self.global_variables.push(GlobalEntry { name: registered_name, lookup });
            proof {
                assert(self.global_variables@.drop_last() =~= old(self).global_variables@);
            }
        }
        qualifiers.unused_errors(&mut self.errors);
        Ok(ret)
    }
}

/// What registering a named declaration adds: the lookup in the flat
/// global-name table, the reference expression in the scope cache, and
/// nothing for an anonymous declaration.
pub open spec fn registered(
    pre: Parser,
    post: Parser,
    ctx_pre: Context,
    ctx_post: Context,
    name: Option<String>,
    lookup: GlobalLookup,
) -> bool {
    &&& (name matches Some(n) ==> {
        &&& post.global_variables@.len() == pre.global_variables@.len() + 1
        &&& post.global_variables@.drop_last() == pre.global_variables@
        &&& post.global_variables@.last().name == n
        &&& post.global_variables@.last().lookup == lookup
        &&& ctx_post.expressions@ == ctx_pre.expressions@.push(
            crate::context::global_expression(lookup),
        )
        &&& ctx_post.global_refs@.len() == ctx_pre.global_refs@.len() + 1
        &&& ctx_post.global_refs@.drop_last() == ctx_pre.global_refs@
        &&& ctx_post.global_refs@.last().name@ == n@
        &&& scope_find(ctx_post.global_refs@, n@) == Some(
            crate::context::global_reference(
                lookup,
                &post.module,
                ExpressionHandle { index: ctx_pre.expressions@.len() as usize },
            ),
        )
    })
    &&& (name is None ==> post.global_variables@ == pre.global_variables@ && ctx_post == ctx_pre)
}


impl Parser {
    /// Materializes a function-scope declaration: the local is mutable unless
    /// declared `const`; any other storage qualifier on a local is a
    /// recoverable diagnostic and the local stays mutable. A name already
    /// bound in the innermost scope is a recoverable diagnostic too; the new
    /// binding still shadows it. Returns the reference expression.
    pub fn add_local_var(&mut self, ctx: &mut Context, decl: VarDeclaration) -> (r: Result<
        ExpressionHandle,
        Error,
    >)
        requires
            old(self).wf(),
            old(ctx).wf(),
        ensures
            final(self).wf(),
            final(ctx).wf(),
            Parser::same_except_errors(*old(self), *final(self)),
            final(self).errors@.len() >= old(self).errors@.len(),
            final(self).errors@.take(old(self).errors@.len() as int) == old(self).errors@,
            final(ctx).global_refs@ == old(ctx).global_refs@,
            r == Ok::<ExpressionHandle, Error>(
                ExpressionHandle { index: old(ctx).expressions@.len() as usize },
            ),
            final(ctx).locals@ == old(ctx).locals@.push(
                LocalVariable { name: decl.name, ty: decl.ty, init: decl.init },
            ),
            final(ctx).expressions@ == old(ctx).expressions@.push(
                Expression::LocalVariable(
                    crate::ir::LocalHandle { index: old(ctx).locals@.len() as usize },
                ),
            ),
            final(ctx).resolutions@ == old(ctx).resolutions@.push(
                ResolvedType { ty: decl.ty, pointer: true },
            ),
            ({
                let mutable = decl.qualifiers.storage.0 != StorageQualifier::Const;
                let expr = ExpressionHandle { index: old(ctx).expressions@.len() as usize };
                &&& (decl.name is None ==> final(ctx).scopes@ == old(ctx).scopes@)
                &&& (decl.name is Some && old(ctx).scopes@.len() > 0 ==> {
                    &&& final(ctx).scopes@.len() == old(ctx).scopes@.len()
                    &&& final(ctx).scopes@.last()@ == old(ctx).scopes@.last()@.push(
                        ScopeEntry {
                            name: decl.name->Some_0,
                            var: VariableReference {
                                expr,
                                load: true,
                                mutable,
                                constant: None,
                                entry_arg: None,
                            },
                        },
                    )
                    &&& forall|i: int|
                        0 <= i < old(ctx).scopes@.len() - 1 ==> final(ctx).scopes@[i] == old(
                            ctx,
                        ).scopes@[i]
                })
            }),
            ({
                let errs0 = old(self).errors@;
                let dup = match decl.name {
                    Some(n) => old(ctx).scopes@.len() > 0 && scope_find(
                        old(ctx).scopes@.last()@,
                        n@,
                    ) is Some,
                    None => false,
                };
                let illegal = decl.qualifiers.storage.0 != StorageQualifier::AddressSpace(
                    AddressSpace::Function,
                ) && decl.qualifiers.storage.0 != StorageQualifier::Const;
                let base = if dup {
                    errs0.push(
                        Error {
                            kind: ErrorKind::VariableAlreadyDeclared(decl.name->Some_0),
                            meta: decl.meta,
                        },
                    )
                } else {
                    errs0
                };
                let base2 = if illegal {
                    base.push(
                        Error {
                            kind: ErrorKind::SemanticError(
                                SemanticErrorKind::LocalStorageQualifier,
                            ),
                            meta: decl.qualifiers.storage.1,
                        },
                    )
                } else {
                    base
                };
                final(self).errors@ == base2 + decl.qualifiers.layout_qualifiers.entries@.map_values(
                    |e: crate::ast::QualifierEntry| crate::ast::unused_error(e),
                )
            }),
    {
        let VarDeclaration { qualifiers, ty, name, init, meta } = decl;
        match &name {
            Some(present) => {
                if self_dup_check(ctx, present.as_str()) {
                    self.errors.push(
                        Error {
                            kind: ErrorKind::VariableAlreadyDeclared(present.clone()),
                            meta,
                        },
                    );
                }
            },
            None => (),
        };
        let storage = qualifiers.storage;
        let mutable = match storage.0 {
            StorageQualifier::AddressSpace(AddressSpace::Function) => true,
            StorageQualifier::Const => false,
            _ => {
                self.errors.push(
                    Error {
                        kind: ErrorKind::SemanticError(SemanticErrorKind::LocalStorageQualifier),
                        meta: storage.1,
                    },
                );
                true
            },
        };
        let handle = crate::ir::LocalHandle { index: ctx.locals.len() };
        ctx.locals.push(LocalVariable { name: clone_opt_name(&name), ty, init });
        let expr = ctx.add_expression(Expression::LocalVariable(handle), ty, true);
        if let Some(present) = name {
            ctx.add_local_var(present, expr, mutable);
        }
        qualifiers.unused_errors(&mut self.errors);
        Ok(expr)
    }
}

/// Whether the name is already bound in the innermost scope.
fn self_dup_check(ctx: &Context, name: &str) -> (r: bool)
    ensures
        r == (ctx.scopes@.len() > 0 && scope_find(ctx.scopes@.last()@, name@) is Some),
{
    ctx.lookup_local_var_current_scope(name).is_some()
}

} // verus!
