//! The IR module: three append-only arenas. The types arena interns its
//! entries structurally; array-length constants are interned too, so a
//! specifier resolved twice shares its entries; global variables append.

use vstd::prelude::*;

use crate::ir::{
    member_eq, opt_name_eq, type_eq, Constant, ConstantHandle, GlobalHandle, GlobalVariable,
    StructMember, Type, TypeHandle, TypeInner,
};

verus! {

/// An anonymous struct type: never interned, every insertion is fresh, so
/// distinct anonymous struct declarations keep distinct identities even with
/// identical member lists.
pub open spec fn anon_struct(ty: Type) -> bool {
    ty.name is None && ty.inner is Struct
}

/// Some arena entry is structurally equal to `ty`.
pub open spec fn has_type(types: Seq<Type>, ty: Type) -> bool {
    exists|i: int| 0 <= i < types.len() && type_eq(types[i], ty)
}

/// `i` is the first arena entry structurally equal to `ty`.
pub open spec fn least_match(types: Seq<Type>, ty: Type, i: int) -> bool {
    &&& 0 <= i < types.len()
    &&& type_eq(types[i], ty)
    &&& forall|j: int| 0 <= j < i ==> !type_eq(types[j], ty)
}

/// The types arena after interning `ty`.
pub open spec fn interned_types(types: Seq<Type>, ty: Type) -> Seq<Type> {
    if !anon_struct(ty) && has_type(types, ty) {
        types
    } else {
        types.push(ty)
    }
}

/// The index interning `ty` yields: the first structural match, or the index
/// of the fresh entry.
pub open spec fn intern_index(types: Seq<Type>, ty: Type) -> int {
    if !anon_struct(ty) && has_type(types, ty) {
        choose|i: int| least_match(types, ty, i)
    } else {
        types.len() as int
    }
}

/// At most one index is the first match.
pub proof fn lemma_least_match_unique(types: Seq<Type>, ty: Type, i: int, j: int)
    requires
        least_match(types, ty, i),
        least_match(types, ty, j),
    ensures
        i == j,
{
    if i < j {
        assert(!type_eq(types[i], ty));
    }
    if j < i {
        assert(!type_eq(types[j], ty));
    }
}

/// Structural equality of constants, the relation array-length constants are
/// interned by: same name characters, same scalar value.
pub open spec fn constant_eq(a: Constant, b: Constant) -> bool {
    opt_name_eq(a.name, b.name) && a.inner == b.inner
}

pub open spec fn has_constant(constants: Seq<Constant>, c: Constant) -> bool {
    exists|i: int| 0 <= i < constants.len() && constant_eq(constants[i], c)
}

/// `i` is the first arena entry structurally equal to `c`.
pub open spec fn least_constant_match(constants: Seq<Constant>, c: Constant, i: int) -> bool {
    &&& 0 <= i < constants.len()
    &&& constant_eq(constants[i], c)
    &&& forall|j: int| 0 <= j < i ==> !constant_eq(constants[j], c)
}

/// The constants arena after fetch-or-append of `c`.
pub open spec fn interned_constants(constants: Seq<Constant>, c: Constant) -> Seq<Constant> {
    if has_constant(constants, c) {
        constants
    } else {
        constants.push(c)
    }
}

/// The index fetch-or-append of `c` yields: the first structural match, or
/// the index of the fresh entry.
pub open spec fn constant_index(constants: Seq<Constant>, c: Constant) -> int {
    if has_constant(constants, c) {
        choose|i: int| least_constant_match(constants, c, i)
    } else {
        constants.len() as int
    }
}

/// At most one index is the first constant match.
pub proof fn lemma_least_constant_match_unique(
    constants: Seq<Constant>,
    c: Constant,
    i: int,
    j: int,
)
    requires
        least_constant_match(constants, c, i),
        least_constant_match(constants, c, j),
    ensures
        i == j,
{
    if i < j {
        assert(!constant_eq(constants[i], c));
    }
    if j < i {
        assert(!constant_eq(constants[j], c));
    }
}

pub struct Module {
    pub types: Vec<Type>,
    pub constants: Vec<Constant>,
    pub global_variables: Vec<GlobalVariable>,
}

fn names_equal(a: &Option<String>, b: &Option<String>) -> (r: bool)
    ensures
        r == opt_name_eq(*a, *b),
{
    match (a, b) {
        (Option::None, Option::None) => true,
        (Option::Some(x), Option::Some(y)) => <String as PartialEq>::eq(x, y),
        _ => false,
    }
}

fn members_equal(m1: &Vec<StructMember>, m2: &Vec<StructMember>) -> (r: bool)
    ensures
        r == crate::ir::members_eq(m1@, m2@),
{
    if m1.len() != m2.len() {
        return false;
    }
    let n: usize = m1.len();
    let mut i: usize = 0;
    while i < n
        invariant
            n == m1.len() == m2.len(),
            i <= n,
            forall|j: int| 0 <= j < i ==> member_eq(m1@[j], m2@[j]),
        decreases n - i,
    {
        let same = names_equal(&m1[i].name, &m2[i].name) && m1[i].ty == m2[i].ty;
        if !same {
            assert(!member_eq(m1@[i as int], m2@[i as int]));
            return false;
        }
        i += 1;
    }
    true
}

fn inners_equal(a: &TypeInner, b: &TypeInner) -> (r: bool)
    ensures
        r == crate::ir::inner_eq(*a, *b),
{
    match (a, b) {
        (
            TypeInner::Scalar { kind: k1, width: w1 },
            TypeInner::Scalar { kind: k2, width: w2 },
        ) => *k1 == *k2 && *w1 == *w2,
        (
            TypeInner::Vector { size: s1, kind: k1, width: w1 },
            TypeInner::Vector { size: s2, kind: k2, width: w2 },
        ) => *s1 == *s2 && *k1 == *k2 && *w1 == *w2,
        (
            TypeInner::Struct { members: m1, span: s1 },
            TypeInner::Struct { members: m2, span: s2 },
        ) => *s1 == *s2 && members_equal(m1, m2),
        (
            TypeInner::Array { base: b1, size: s1, stride: t1 },
            TypeInner::Array { base: b2, size: s2, stride: t2 },
        ) => *b1 == *b2 && *s1 == *s2 && *t1 == *t2,
        (
            TypeInner::Pointer { base: b1, space: s1 },
            TypeInner::Pointer { base: b2, space: s2 },
        ) => *b1 == *b2 && *s1 == *s2,
        (TypeInner::Image, TypeInner::Image) => true,
        (TypeInner::Sampler { comparison: c1 }, TypeInner::Sampler { comparison: c2 }) => *c1 == *c2,
        _ => false,
    }
}

/// Structural equality of two types, the relation the types arena interns by.
pub fn types_equal(a: &Type, b: &Type) -> (r: bool)
    ensures
        r == type_eq(*a, *b),
{
    names_equal(&a.name, &b.name) && inners_equal(&a.inner, &b.inner)
}

/// Structural equality of two constants.
pub fn constants_equal(a: &Constant, b: &Constant) -> (r: bool)
    ensures
        r == constant_eq(*a, *b),
{
    names_equal(&a.name, &b.name) && a.inner == b.inner
}

impl Module {
    pub fn new() -> (r: Module)
        ensures
            r.types@ == Seq::<Type>::empty(),
            r.constants@ == Seq::<Constant>::empty(),
            r.global_variables@ == Seq::<GlobalVariable>::empty(),
    {
        Module { types: Vec::new(), constants: Vec::new(), global_variables: Vec::new() }
    }

    /// Interns a type: returns the first structurally equal entry if there is
    /// one, otherwise appends. Anonymous struct types are always appended, so
    /// each anonymous struct declaration keeps its own identity.
    pub fn insert_type(&mut self, ty: Type) -> (r: TypeHandle)
        ensures
            final(self).constants@ == old(self).constants@,
            final(self).global_variables@ == old(self).global_variables@,
            final(self).types@ == interned_types(old(self).types@, ty),
            r.index == intern_index(old(self).types@, ty),
            r.index < final(self).types@.len(),
            type_eq(final(self).types@[r.index as int], ty) || final(self).types@[r.index as int]
                == ty,
            !anon_struct(ty) && has_type(old(self).types@, ty) ==> {
                &&& final(self).types@ == old(self).types@
                &&& least_match(old(self).types@, ty, r.index as int)
            },
            anon_struct(ty) || !has_type(old(self).types@, ty) ==> {
                &&& final(self).types@ == old(self).types@.push(ty)
                &&& r.index == old(self).types@.len()
            },
    {
        let anon = ty.name.is_none() && matches!(ty.inner, TypeInner::Struct { .. });
        if !anon {
            let n: usize = self.types.len();
            let mut i: usize = 0;
            while i < n
                invariant
                    !anon_struct(ty),
                    self.types@ == old(self).types@,
                    self.constants@ == old(self).constants@,
                    self.global_variables@ == old(self).global_variables@,
                    n == self.types.len(),
                    i <= n,
                    forall|j: int| 0 <= j < i ==> !type_eq(self.types@[j], ty),
                decreases n - i,
            {
                if types_equal(&self.types[i], &ty) {
                    proof {
                        assert(least_match(self.types@, ty, i as int));
                        let k = choose|k: int| least_match(self.types@, ty, k);
                        lemma_least_match_unique(self.types@, ty, i as int, k);
                    }
                    return TypeHandle { index: i };
                }
                i += 1;
            }
        }
        let index: usize = self.types.len();
        self.types.push(ty);
        TypeHandle { index }
    }

    /// Interns a constant: returns the first structurally equal entry if
    /// there is one, otherwise appends. Array lengths go through this, so
    /// resolving the same sized specifier twice shares one length constant.
    pub fn fetch_or_append_constant(&mut self, c: Constant) -> (r: ConstantHandle)
        ensures
            final(self).types@ == old(self).types@,
            final(self).global_variables@ == old(self).global_variables@,
            final(self).constants@ == interned_constants(old(self).constants@, c),
            r.index == constant_index(old(self).constants@, c),
            r.index < final(self).constants@.len(),
            has_constant(old(self).constants@, c) ==> {
                &&& final(self).constants@ == old(self).constants@
                &&& least_constant_match(old(self).constants@, c, r.index as int)
            },
            !has_constant(old(self).constants@, c) ==> {
                &&& final(self).constants@ == old(self).constants@.push(c)
                &&& r.index == old(self).constants@.len()
            },
    {
        let n: usize = self.constants.len();
        let mut i: usize = 0;
        while i < n
            invariant
                self.types@ == old(self).types@,
                self.constants@ == old(self).constants@,
                self.global_variables@ == old(self).global_variables@,
                n == self.constants.len(),
                i <= n,
                forall|j: int| 0 <= j < i ==> !constant_eq(self.constants@[j], c),
            decreases n - i,
        {
            if constants_equal(&self.constants[i], &c) {
                proof {
                    assert(least_constant_match(self.constants@, c, i as int));
                    let k = choose|k: int| least_constant_match(self.constants@, c, k);
                    lemma_least_constant_match_unique(self.constants@, c, i as int, k);
                }
                return ConstantHandle { index: i };
            }
            i += 1;
        }
        let index: usize = self.constants.len();
        self.constants.push(c);
        ConstantHandle { index }
    }

    /// Appends a constant; every call yields a fresh handle.
    pub fn append_constant(&mut self, c: Constant) -> (r: ConstantHandle)
        ensures
            final(self).types@ == old(self).types@,
            final(self).global_variables@ == old(self).global_variables@,
            final(self).constants@ == old(self).constants@.push(c),
            r.index == old(self).constants@.len(),
    {
        let index: usize = self.constants.len();
        self.constants.push(c);
        ConstantHandle { index }
    }

    /// Appends a global variable; every call yields a fresh handle.
    pub fn append_global(&mut self, var: GlobalVariable) -> (r: GlobalHandle)
        ensures
            final(self).types@ == old(self).types@,
            final(self).constants@ == old(self).constants@,
            final(self).global_variables@ == old(self).global_variables@.push(var),
            r.index == old(self).global_variables@.len(),
    {
        let index: usize = self.global_variables.len();
        self.global_variables.push(var);
        GlobalHandle { index }
    }
}

} // verus!
