//! Properties that relate several operations, stated and proved over the
//! spec functions the operations' own contracts use.

use vstd::prelude::*;

use crate::ast::TypeQualifiers;
use crate::ir::{
    inner_eq, member_eq, members_eq, opt_name_eq, type_eq, ShaderStage, Type, TypeHandle,
};
use crate::ir::Constant;
use crate::module::{
    anon_struct, constant_eq, constant_index, has_constant, has_type, intern_index,
    interned_constants, interned_types, least_constant_match, least_match,
    lemma_least_constant_match_unique, lemma_least_match_unique,
};
use crate::span::Span;
use crate::token::TokenValue;
use crate::types::{fold_error, fold_quals, is_storage_token, spec_storage_of};
use crate::variables::builtin_data_spec;

verus! {

pub proof fn lemma_type_eq_refl(t: Type)
    ensures
        type_eq(t, t),
{
    assert(members_eq(t.inner->Struct_members@, t.inner->Struct_members@)) by {
        let m = t.inner->Struct_members@;
        assert forall|i: int| 0 <= i < m.len() implies member_eq(m[i], m[i]) by {}
    }
}

pub proof fn lemma_type_eq_symm(a: Type, b: Type)
    requires
        type_eq(a, b),
    ensures
        type_eq(b, a),
{
    if a.inner is Struct && b.inner is Struct {
        let ma = a.inner->Struct_members@;
        let mb = b.inner->Struct_members@;
        assert forall|i: int| 0 <= i < mb.len() implies member_eq(mb[i], ma[i]) by {
            assert(member_eq(ma[i], mb[i]));
        }
    }
}

pub proof fn lemma_type_eq_trans(a: Type, b: Type, c: Type)
    requires
        type_eq(a, b),
        type_eq(b, c),
    ensures
        type_eq(a, c),
{
    if a.inner is Struct && b.inner is Struct && c.inner is Struct {
        let ma = a.inner->Struct_members@;
        let mb = b.inner->Struct_members@;
        let mc = c.inner->Struct_members@;
        assert forall|i: int| 0 <= i < ma.len() implies member_eq(ma[i], mc[i]) by {
            assert(member_eq(ma[i], mb[i]));
            assert(member_eq(mb[i], mc[i]));
        }
    }
}

/// Interning is idempotent: once a non-anonymous type stands in the arena,
/// interning any structurally equal specifier finds that same entry — the
/// arena does not change and the handle is the one the first interning gave.
/// (Anonymous structs are exempt by design: they always append.)
pub proof fn lemma_intern_idempotent(types: Seq<Type>, ty1: Type, ty2: Type)
    ensures
        !anon_struct(ty1) && type_eq(ty1, ty2) ==> ({
            let types1 = interned_types(types, ty1);
            &&& interned_types(types1, ty2) == types1
            &&& intern_index(types1, ty2) == intern_index(types, ty1)
        }),
{
    if !anon_struct(ty1) && type_eq(ty1, ty2) {
        assert(!anon_struct(ty2)) by {
            if ty1.name is Some {
                assert(ty2.name is Some);
            } else {
                assert(!(ty1.inner is Struct));
                assert(!(ty2.inner is Struct));
            }
        }
        let types1 = interned_types(types, ty1);
        if has_type(types, ty1) {
            let i = choose|i: int| least_match(types, ty1, i);
            assert(least_match(types, ty1, i)) by {
                lemma_least_exists(types, ty1);
            }
            assert(least_match(types, ty2, i)) by {
                lemma_type_eq_trans(types[i], ty1, ty2);
                assert forall|j: int| 0 <= j < i implies !type_eq(types[j], ty2) by {
                    if type_eq(types[j], ty2) {
                        lemma_type_eq_symm(ty1, ty2);
                        lemma_type_eq_trans(types[j], ty2, ty1);
                    }
                }
            }
            assert(has_type(types, ty2));
            assert(types1 == types);
            let j = choose|j: int| least_match(types, ty2, j);
            assert(least_match(types, ty2, j)) by {
                lemma_least_exists(types, ty2);
            }
            lemma_least_match_unique(types, ty2, i, j);
        } else {
            assert(types1 == types.push(ty1));
            assert(type_eq(types1[types.len() as int], ty2));
            assert(least_match(types1, ty2, types.len() as int)) by {
                assert forall|j: int| 0 <= j < types.len() implies !type_eq(
                    types1[j],
                    ty2,
                ) by {
                    if type_eq(types1[j], ty2) {
                        lemma_type_eq_symm(ty1, ty2);
                        lemma_type_eq_trans(types[j], ty2, ty1);
                        assert(has_type(types, ty1));
                    }
                }
            }
            assert(has_type(types1, ty2));
            let j = choose|j: int| least_match(types1, ty2, j);
            assert(least_match(types1, ty2, j)) by {
                lemma_least_exists(types1, ty2);
            }
            lemma_least_match_unique(types1, ty2, types.len() as int, j);
            assert(interned_types(types1, ty2) == types1);
        }
    }
}

/// Interning the length constant of a sized array specifier is idempotent:
/// once a length stands in the constants arena, fetch-or-append of an equal
/// constant finds that same entry, so the second resolution of the same
/// sized specifier builds the identical array type and interning yields the
/// same type handle.
pub proof fn lemma_constant_intern_idempotent(constants: Seq<Constant>, c1: Constant, c2: Constant)
    ensures
        constant_eq(c1, c2) ==> ({
            let constants1 = interned_constants(constants, c1);
            &&& interned_constants(constants1, c2) == constants1
            &&& constant_index(constants1, c2) == constant_index(constants, c1)
        }),
{
    if constant_eq(c1, c2) {
        let constants1 = interned_constants(constants, c1);
        if has_constant(constants, c1) {
            let i = choose|i: int| least_constant_match(constants, c1, i);
            assert(least_constant_match(constants, c1, i)) by {
                lemma_least_constant_exists(constants, c1);
            }
            assert(least_constant_match(constants, c2, i)) by {
                assert forall|j: int| 0 <= j < i implies !constant_eq(constants[j], c2) by {
                    if constant_eq(constants[j], c2) {
                        assert(constant_eq(constants[j], c1));
                    }
                }
            }
            assert(has_constant(constants, c2));
            let j = choose|j: int| least_constant_match(constants, c2, j);
            assert(least_constant_match(constants, c2, j)) by {
                lemma_least_constant_exists(constants, c2);
            }
            lemma_least_constant_match_unique(constants, c2, i, j);
        } else {
            assert(constants1 == constants.push(c1));
            assert(constant_eq(constants1[constants.len() as int], c2));
            assert(least_constant_match(constants1, c2, constants.len() as int)) by {
                assert forall|j: int| 0 <= j < constants.len() implies !constant_eq(
                    constants1[j],
                    c2,
                ) by {
                    if constant_eq(constants1[j], c2) {
                        assert(constant_eq(constants[j], c1));
                        assert(has_constant(constants, c1));
                    }
                }
            }
            assert(has_constant(constants1, c2));
            let j = choose|j: int| least_constant_match(constants1, c2, j);
            assert(least_constant_match(constants1, c2, j)) by {
                lemma_least_constant_exists(constants1, c2);
            }
            lemma_least_constant_match_unique(constants1, c2, constants.len() as int, j);
        }
    }
}

/// A constants arena that holds a match holds a first match.
proof fn lemma_least_constant_exists(constants: Seq<Constant>, c: Constant)
    requires
        has_constant(constants, c),
    ensures
        least_constant_match(constants, c, choose|i: int| least_constant_match(constants, c, i)),
    decreases constants.len(),
{
    let w = choose|i: int| 0 <= i < constants.len() && constant_eq(constants[i], c);
    if constant_eq(constants[0], c) {
        assert(least_constant_match(constants, c, 0));
    } else {
        assert(has_constant(constants.drop_first(), c)) by {
            assert(constants.drop_first()[w - 1] == constants[w]);
        }
        lemma_least_constant_exists(constants.drop_first(), c);
        let i = choose|i: int| least_constant_match(constants.drop_first(), c, i);
        assert(constants.drop_first()[i] == constants[i + 1]);
        assert(least_constant_match(constants, c, i + 1)) by {
            assert forall|j: int| 0 <= j < i + 1 implies !constant_eq(constants[j], c) by {
                if j > 0 {
                    assert(constants.drop_first()[j - 1] == constants[j]);
                }
            }
        }
    }
}

/// Distinct anonymous struct declarations always yield distinct handles,
/// even with identical member lists: each interning appends a fresh entry.
pub proof fn lemma_anon_struct_fresh(types: Seq<Type>, ty1: Type, ty2: Type)
    requires
        anon_struct(ty1),
        anon_struct(ty2),
    ensures
        interned_types(types, ty1).len() == types.len() + 1,
        intern_index(interned_types(types, ty1), ty2) != intern_index(types, ty1),
{
}

/// An arena that holds a match holds a first match.
proof fn lemma_least_exists(types: Seq<Type>, ty: Type)
    requires
        has_type(types, ty),
    ensures
        least_match(types, ty, choose|i: int| least_match(types, ty, i)),
    decreases types.len(),
{
    let w = choose|i: int| 0 <= i < types.len() && type_eq(types[i], ty);
    if type_eq(types[0], ty) {
        assert(least_match(types, ty, 0));
    } else {
        assert(has_type(types.drop_first(), ty)) by {
            assert(types.drop_first()[w - 1] == types[w]);
        }
        lemma_least_exists(types.drop_first(), ty);
        let i = choose|i: int| least_match(types.drop_first(), ty, i);
        assert(types.drop_first()[i] == types[i + 1]);
        assert(least_match(types, ty, i + 1)) by {
            assert forall|j: int| 0 <= j < i + 1 implies !type_eq(types[j], ty) by {
                if j > 0 {
                    assert(types.drop_first()[j - 1] == types[j]);
                }
            }
        }
    }
}

/// Two qualifiers of the same category in one declaration: folding the first
/// into a fresh accumulator reports nothing; folding the second reports
/// exactly one diagnostic, and the value stored afterwards is the second one
/// (last wins).
pub proof fn lemma_duplicate_qualifier_last_wins(
    q: TypeQualifiers,
    v1: TokenValue,
    m1: Span,
    v2: TokenValue,
    m2: Span,
)
    requires
        fold_error(q, v1, m1) is None,
        (v1 is Interpolation && v2 is Interpolation) || (v1 is Sampling && v2 is Sampling) || (
        v1 is PrecisionQualifier && v2 is PrecisionQualifier) || (is_storage_token(v1)
            && is_storage_token(v2)),
    ensures
        fold_error(fold_quals(q, v1, m1), v2, m2) is Some,
        v2 matches TokenValue::Interpolation(i) ==> fold_quals(
            fold_quals(q, v1, m1),
            v2,
            m2,
        ).interpolation == Some((i, m2)),
        v2 matches TokenValue::Sampling(s) ==> fold_quals(
            fold_quals(q, v1, m1),
            v2,
            m2,
        ).sampling == Some((s, m2)),
        v2 matches TokenValue::PrecisionQualifier(p) ==> fold_quals(
            fold_quals(q, v1, m1),
            v2,
            m2,
        ).precision == Some((p, m2)),
        is_storage_token(v2) ==> fold_quals(fold_quals(q, v1, m1), v2, m2).storage == (
            spec_storage_of(v2),
            m2,
        ),
{
}

/// The same memory-access flag given twice: the second occurrence reports
/// exactly one diagnostic, and the merge is idempotent — the flag set stays
/// what the first occurrence made it.
pub proof fn lemma_repeated_memory_flag(q: TypeQualifiers, access: u32, m1: Span, m2: Span)
    requires
        fold_error(q, TokenValue::StorageAccess(access), m1) is None,
    ensures
        fold_error(
            fold_quals(q, TokenValue::StorageAccess(access), m1),
            TokenValue::StorageAccess(access),
            m2,
        ) is Some,
        ({
            let first = fold_quals(q, TokenValue::StorageAccess(access), m1);
            let second = fold_quals(first, TokenValue::StorageAccess(access), m2);
            second.storage_access->Some_0.0 == first.storage_access->Some_0.0
        }),
{
    let cur = match q.storage_access {
        Some(pair) => pair.0,
        None => 0u32,
    };
    assert((cur | access) & access == access) by (bit_vector);
    assert((cur | access) | access == cur | access) by (bit_vector);
}

/// The clip and cull distance built-ins are writable exactly in the vertex
/// stage; in every stage they are known to the catalog as stage outputs with
/// their own built-in kinds.
pub proof fn lemma_clip_cull_mutability(stage: ShaderStage, base: TypeHandle)
    ensures
        builtin_data_spec("gl_ClipDistance"@, stage, base) is Some,
        builtin_data_spec("gl_CullDistance"@, stage, base) is Some,
        builtin_data_spec("gl_ClipDistance"@, stage, base)->Some_0.mutable == (stage
            == ShaderStage::Vertex),
        builtin_data_spec("gl_CullDistance"@, stage, base)->Some_0.mutable == (stage
            == ShaderStage::Vertex),
        builtin_data_spec("gl_ClipDistance"@, stage, base)->Some_0.builtin
            == crate::ir::BuiltIn::ClipDistance,
        builtin_data_spec("gl_CullDistance"@, stage, base)->Some_0.builtin
            == crate::ir::BuiltIn::CullDistance,
{
    reveal_strlit("gl_Position");
    reveal_strlit("gl_FragCoord");
    reveal_strlit("gl_GlobalInvocationID");
    reveal_strlit("gl_NumWorkGroups");
    reveal_strlit("gl_WorkGroupSize");
    reveal_strlit("gl_WorkGroupID");
    reveal_strlit("gl_LocalInvocationID");
    reveal_strlit("gl_FrontFacing");
    reveal_strlit("gl_PointSize");
    reveal_strlit("gl_FragDepth");
    reveal_strlit("gl_ClipDistance");
    reveal_strlit("gl_CullDistance");
    assert("gl_ClipDistance"@.len() == 15);
    assert("gl_CullDistance"@.len() == 15);
    assert("gl_WorkGroupSize"@.len() == 16);
    assert("gl_ClipDistance"@[4] == 'l' && "gl_CullDistance"@[4] == 'u');
    assert("gl_ClipDistance"@ != "gl_CullDistance"@);
}

} // verus!
