//! The typed intermediate representation: handles into the module arenas and
//! the tagged shapes stored there (types, constants, variables, expressions).

use vstd::prelude::*;

verus! {

/// Handle of an entry in the types arena.
#[derive(Clone, Copy, PartialEq, Eq, Structural, Debug)]
pub struct TypeHandle {
    pub index: usize,
}

/// Handle of an entry in the constants arena.
#[derive(Clone, Copy, PartialEq, Eq, Structural, Debug)]
pub struct ConstantHandle {
    pub index: usize,
}

/// Handle of an entry in the global-variables arena.
#[derive(Clone, Copy, PartialEq, Eq, Structural, Debug)]
pub struct GlobalHandle {
    pub index: usize,
}

/// Handle of a local variable in a function context.
#[derive(Clone, Copy, PartialEq, Eq, Structural, Debug)]
pub struct LocalHandle {
    pub index: usize,
}

/// Handle of an expression in a function context.
#[derive(Clone, Copy, PartialEq, Eq, Structural, Debug)]
pub struct ExpressionHandle {
    pub index: usize,
}

#[derive(Clone, Copy, PartialEq, Eq, Structural, Debug)]
pub enum ScalarKind {
    Sint,
    Uint,
    Bool,
    Float,
}

#[derive(Clone, Copy, PartialEq, Eq, Structural, Debug)]
pub enum VectorSize {
    Bi,
    Tri,
    Quad,
}

impl VectorSize {
    /// Number of components of a vector of this size.
    pub open spec fn spec_count(self) -> u32 {
        match self {
            VectorSize::Bi => 2,
            VectorSize::Tri => 3,
            VectorSize::Quad => 4,
        }
    }

    #[verifier::when_used_as_spec(spec_count)]
    pub fn count(self) -> (r: u32)
        ensures
            r == self.spec_count(),
    {
        match self {
            VectorSize::Bi => 2,
            VectorSize::Tri => 3,
            VectorSize::Quad => 4,
        }
    }
}

/// Memory layout rule for a struct body.
#[derive(Clone, Copy, PartialEq, Eq, Structural, Debug)]
pub enum StructLayout {
    Std140,
    Std430,
}

/// Size of an array type: unsized, or fixed by an interned unsigned constant.
#[derive(Clone, Copy, PartialEq, Eq, Structural, Debug)]
pub enum ArraySize {
    Dynamic,
    Constant(ConstantHandle),
}

/// Memory access permitted through a storage-space global, as a flag set.
pub type StorageAccess = u32;

pub const STORAGE_ACCESS_LOAD: StorageAccess = 1;

pub const STORAGE_ACCESS_STORE: StorageAccess = 2;

pub const STORAGE_ACCESS_ALL: StorageAccess = 3;

/// Width of a boolean scalar in the IR.
pub const BOOL_WIDTH: u8 = 1;

#[derive(Clone, Copy, PartialEq, Eq, Structural, Debug)]
pub enum AddressSpace {
    Function,
    Private,
    WorkGroup,
    Uniform,
    Storage { access: StorageAccess },
    PushConstant,
    Handle,
}

#[derive(Clone, PartialEq, Eq, Debug)]
pub struct StructMember {
    pub name: Option<String>,
    pub ty: TypeHandle,
}

#[derive(Clone, PartialEq, Eq, Debug)]
pub enum TypeInner {
    Scalar { kind: ScalarKind, width: u8 },
    Vector { size: VectorSize, kind: ScalarKind, width: u8 },
    Struct { members: Vec<StructMember>, span: u32 },
    Array { base: TypeHandle, size: ArraySize, stride: u32 },
    Pointer { base: TypeHandle, space: AddressSpace },
    Image,
    Sampler { comparison: bool },
}

impl TypeInner {
    /// The scalar kind of a scalar or vector shape, if it has one.
    pub open spec fn spec_scalar_kind(&self) -> Option<ScalarKind> {
        match *self {
            TypeInner::Scalar { kind, .. } => Some(kind),
            TypeInner::Vector { kind, .. } => Some(kind),
            _ => None,
        }
    }

    #[verifier::when_used_as_spec(spec_scalar_kind)]
    pub fn scalar_kind(&self) -> (r: Option<ScalarKind>)
        ensures
            r == self.spec_scalar_kind(),
    {
        match *self {
            TypeInner::Scalar { kind, .. } => Some(kind),
            TypeInner::Vector { kind, .. } => Some(kind),
            _ => None,
        }
    }

    /// Byte size used for array strides and struct spans. Layout of aggregate
    /// and opaque shapes is a later stage's concern; they get a fixed slot.
    pub open spec fn spec_size(&self) -> u32 {
        match *self {
            TypeInner::Scalar { width, .. } => width as u32,
            TypeInner::Vector { size, width, .. } => (size.spec_count() * width as u32) as u32,
            TypeInner::Struct { span, .. } => span,
            _ => 16,
        }
    }

    #[verifier::when_used_as_spec(spec_size)]
    pub fn size(&self) -> (r: u32)
        ensures
            r == self.spec_size(),
    {
        match *self {
            TypeInner::Scalar { width, .. } => width as u32,
            TypeInner::Vector { size, width, .. } => {
                let n: u32 = size.count();
                let w: u32 = width as u32;
                assert(n * w <= 4 * 255) by (nonlinear_arith)
                    requires
                        n <= 4,
                        w <= 255,
                ;
                n * w
            },
            TypeInner::Struct { span, .. } => span,
            _ => 16,
        }
    }
}

#[derive(Clone, PartialEq, Eq, Debug)]
pub struct Type {
    pub name: Option<String>,
    pub inner: TypeInner,
}

/// Two optional names are the same when both are absent or both hold the
/// same characters.
pub open spec fn opt_name_eq(a: Option<String>, b: Option<String>) -> bool {
    match (a, b) {
        (Option::None, Option::None) => true,
        (Option::Some(x), Option::Some(y)) => x@ == y@,
        _ => false,
    }
}

pub open spec fn member_eq(a: StructMember, b: StructMember) -> bool {
    opt_name_eq(a.name, b.name) && a.ty == b.ty
}

pub open spec fn members_eq(a: Seq<StructMember>, b: Seq<StructMember>) -> bool {
    a.len() == b.len() && forall|i: int| 0 <= i < a.len() ==> member_eq(a[i], b[i])
}

/// Structural equality of type shapes, comparing names by their characters.
pub open spec fn inner_eq(a: TypeInner, b: TypeInner) -> bool {
    match (a, b) {
        (
            TypeInner::Scalar { kind: k1, width: w1 },
            TypeInner::Scalar { kind: k2, width: w2 },
        ) => k1 == k2 && w1 == w2,
        (
            TypeInner::Vector { size: s1, kind: k1, width: w1 },
            TypeInner::Vector { size: s2, kind: k2, width: w2 },
        ) => s1 == s2 && k1 == k2 && w1 == w2,
        (
            TypeInner::Struct { members: m1, span: s1 },
            TypeInner::Struct { members: m2, span: s2 },
        ) => members_eq(m1@, m2@) && s1 == s2,
        (
            TypeInner::Array { base: b1, size: s1, stride: t1 },
            TypeInner::Array { base: b2, size: s2, stride: t2 },
        ) => b1 == b2 && s1 == s2 && t1 == t2,
        (
            TypeInner::Pointer { base: b1, space: s1 },
            TypeInner::Pointer { base: b2, space: s2 },
        ) => b1 == b2 && s1 == s2,
        (TypeInner::Image, TypeInner::Image) => true,
        (TypeInner::Sampler { comparison: c1 }, TypeInner::Sampler { comparison: c2 }) => c1 == c2,
        _ => false,
    }
}

/// Structural equality of interned types: same name characters, same shape.
pub open spec fn type_eq(a: Type, b: Type) -> bool {
    opt_name_eq(a.name, b.name) && inner_eq(a.inner, b.inner)
}

#[derive(Clone, Copy, PartialEq, Eq, Structural, Debug)]
pub enum ScalarValue {
    Uint(u64),
    Sint(i64),
    Bool(bool),
}

#[derive(Clone, Copy, PartialEq, Eq, Structural, Debug)]
pub enum ConstantInner {
    Scalar { width: u8, value: ScalarValue },
}

#[derive(Clone, PartialEq, Eq, Debug)]
pub struct Constant {
    pub name: Option<String>,
    pub inner: ConstantInner,
}

#[derive(Clone, Copy, PartialEq, Eq, Structural, Debug)]
pub struct ResourceBinding {
    pub group: u64,
    pub binding: u64,
}

#[derive(Clone, PartialEq, Eq, Debug)]
pub struct GlobalVariable {
    pub name: Option<String>,
    pub space: AddressSpace,
    pub binding: Option<ResourceBinding>,
    pub ty: TypeHandle,
    pub init: Option<ConstantHandle>,
}

#[derive(Clone, PartialEq, Eq, Debug)]
pub struct LocalVariable {
    pub name: Option<String>,
    pub ty: TypeHandle,
    pub init: Option<ConstantHandle>,
}

#[derive(Clone, Copy, PartialEq, Eq, Structural, Debug)]
pub enum BuiltIn {
    Position,
    PointSize,
    FragDepth,
    FrontFacing,
    ClipDistance,
    CullDistance,
    GlobalInvocationId,
    NumWorkGroups,
    WorkGroupSize,
    WorkGroupId,
    LocalInvocationId,
    LocalInvocationIndex,
    BaseVertex,
    BaseInstance,
    PrimitiveIndex,
    InstanceIndex,
    VertexIndex,
    SampleIndex,
}

#[derive(Clone, Copy, PartialEq, Eq, Structural, Debug)]
pub enum Interpolation {
    Perspective,
    Linear,
    Flat,
}

#[derive(Clone, Copy, PartialEq, Eq, Structural, Debug)]
pub enum Sampling {
    Center,
    Centroid,
    Sample,
}

#[derive(Clone, Copy, PartialEq, Eq, Structural, Debug)]
pub enum Precision {
    High,
    Medium,
    Low,
}

#[derive(Clone, Copy, PartialEq, Eq, Structural, Debug)]
pub enum ShaderStage {
    Vertex,
    Fragment,
    Compute,
}

/// One slot of a stage-interface binding.
#[derive(Clone, Copy, PartialEq, Eq, Debug)]
pub enum Binding {
    BuiltIn(BuiltIn),
    Location { location: u64, interpolation: Option<Interpolation>, sampling: Option<Sampling> },
}

/// A component of a vector swizzle pattern.
#[derive(Clone, Copy, PartialEq, Eq, Structural, Debug)]
pub enum SwizzleComponent {
    X,
    Y,
    Z,
    W,
}

impl SwizzleComponent {
    /// The component's index within its vector.
    pub open spec fn spec_index_of(self) -> u32 {
        match self {
            SwizzleComponent::X => 0,
            SwizzleComponent::Y => 1,
            SwizzleComponent::Z => 2,
            SwizzleComponent::W => 3,
        }
    }

    #[verifier::when_used_as_spec(spec_index_of)]
    pub fn index_of(self) -> (r: u32)
        ensures
            r == self.spec_index_of(),
    {
        match self {
            SwizzleComponent::X => 0,
            SwizzleComponent::Y => 1,
            SwizzleComponent::Z => 2,
            SwizzleComponent::W => 3,
        }
    }

    /// The component at a given index; indices above three wrap to `W`.
    pub open spec fn spec_from_index(idx: u32) -> SwizzleComponent {
        if idx == 0 {
            SwizzleComponent::X
        } else if idx == 1 {
            SwizzleComponent::Y
        } else if idx == 2 {
            SwizzleComponent::Z
        } else {
            SwizzleComponent::W
        }
    }

    #[verifier::when_used_as_spec(spec_from_index)]
    pub fn from_index(idx: u32) -> (r: SwizzleComponent)
        ensures
            r == SwizzleComponent::spec_from_index(idx),
    {
        if idx == 0 {
            SwizzleComponent::X
        } else if idx == 1 {
            SwizzleComponent::Y
        } else if idx == 2 {
            SwizzleComponent::Z
        } else {
            SwizzleComponent::W
        }
    }
}

/// The expression shapes this front end produces while resolving variables
/// and field accesses.
#[derive(Clone, PartialEq, Eq, Debug)]
pub enum Expression {
    GlobalVariable(GlobalHandle),
    LocalVariable(LocalHandle),
    Constant(ConstantHandle),
    AccessIndex { base: ExpressionHandle, index: u32 },
    Swizzle { size: VectorSize, vector: ExpressionHandle, pattern: Vec<SwizzleComponent> },
    Load { pointer: ExpressionHandle },
}

} // verus!
