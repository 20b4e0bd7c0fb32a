use crate::name_space::errors::NameSpaceError;
use crate::primitive::PrimitiveType;
use crate::scope::errors::ScopeError;
use vstd::prelude::*;
use vstd::std_specs::convert::FromSpecImpl;

verus! {

/// Why an expression or a statement does not type-check.
#[derive(Debug, Clone, PartialEq, Eq)]
pub enum TypeCheckError {
    TypeMismatch { expected: PrimitiveType, found: PrimitiveType },
    NotIterable { found: PrimitiveType },
    NotMutable { name: String },
    InvalidOperation { op: String, reason: String },
    InvalidConditionType { found: PrimitiveType },
    FunctionReturnMismatch { expected: PrimitiveType, found: PrimitiveType },
    TupleCountMismatch { expected: usize, found: usize },
    ArgumentCountMismatch { expected: usize, found: usize },
    NotCallable { found: PrimitiveType },
    InvalidPath { name: String },
    InvalidReturnScope,
    DuplicateDefinition { name: String },
    InferenceFailure { names: Vec<String> },
    UnknownVariable { name: String },
    UnknownPattern { name: String },
    UnknownType { name: String },
    ScopeError(ScopeError),
    NameSpaceError(NameSpaceError),
}

impl From<NameSpaceError> for TypeCheckError {
    fn from(value: NameSpaceError) -> (r: Self) {
        TypeCheckError::NameSpaceError(value)
    }
}

impl FromSpecImpl<NameSpaceError> for TypeCheckError {
    open spec fn obeys_from_spec() -> bool {
        true
    }

    open spec fn from_spec(v: NameSpaceError) -> TypeCheckError {
        TypeCheckError::NameSpaceError(v)
    }
}

impl From<ScopeError> for TypeCheckError {
    fn from(value: ScopeError) -> (r: Self) {
        TypeCheckError::ScopeError(value)
    }
}

impl FromSpecImpl<ScopeError> for TypeCheckError {
    open spec fn obeys_from_spec() -> bool {
        true
    }

    open spec fn from_spec(v: ScopeError) -> TypeCheckError {
        TypeCheckError::ScopeError(v)
    }
}

} // verus!
