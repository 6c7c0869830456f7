//! The two diagnostic channels: fatal errors returned as `Err`, and
//! recoverable diagnostics appended to the parser's error list.

use vstd::prelude::*;

use crate::span::Span;
use crate::token::{ExpectedToken, TokenValue};

verus! {

/// Conditions reported as semantic errors. Some are fatal (returned in a
/// `Result`), most are recoverable (pushed to the diagnostics list); rendering
/// them as text is a later stage's concern.
#[derive(Clone, PartialEq, Eq, Debug)]
pub enum SemanticErrorKind {
    /// A concrete type was required but the specifier was `void`.
    VoidType,
    /// A second interpolation qualifier on one declaration.
    ExtraInterpolationQualifier,
    /// A second storage qualifier on one declaration.
    ExtraStorageQualifier,
    /// A second sampling qualifier on one declaration.
    ExtraSamplingQualifier,
    /// A second precision qualifier on one declaration.
    ExtraPrecisionQualifier,
    /// The same memory-access qualifier given twice.
    RepeatedMemoryQualifier,
    /// A layout qualifier whose value must be an unsigned integer held
    /// something else.
    QualifierExpectsUint,
    /// A layout qualifier that takes no value held one.
    QualifierTakesNoValue,
    /// A layout qualifier that no consumer of the declaration claimed.
    UnusedQualifier,
    /// A `const` declaration without an initializer.
    MissingConstInitializer,
    /// A uniform/storage/handle global without a `binding` layout value.
    MissingBindingLayout,
    /// A local declaration carrying a storage qualifier other than `const`.
    LocalStorageQualifier,
    /// A swizzle with a repeated component used as an assignment target.
    DuplicateLvalueSwizzle,
    /// A swizzle of more or fewer components than a vector can have.
    BadSwizzleSize,
    /// A field name that is not a swizzle of the vector it was used on.
    InvalidSwizzle,
    /// Field access on a type that has no fields.
    FieldOnNonAggregate,
}

#[derive(Clone, PartialEq, Eq, Debug)]
pub enum ErrorKind {
    /// The token stream ended where a token was required.
    EndOfFile,
    /// An identifier used as a type name without a declaration for it.
    UnknownType(String),
    /// A token that does not fit what the grammar expected there.
    InvalidToken(TokenValue, ExpectedToken),
    /// A field name that no member of the struct carries.
    UnknownField(String),
    /// A name already bound in the current lexical scope.
    VariableAlreadyDeclared(String),
    SemanticError(SemanticErrorKind),
}

#[derive(Clone, PartialEq, Eq, Debug)]
pub struct Error {
    pub kind: ErrorKind,
    pub meta: Span,
}

} // verus!
