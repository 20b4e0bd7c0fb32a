pub mod collector;
pub mod name_resolver;
pub mod module_resolution;
pub mod resolver;

use crate::desugar::DesugarError;
use crate::name_space::errors::NameSpaceError;
use crate::scope::errors::ScopeError;
use crate::scope::TypeSymbol;
use crate::type_check::errors::TypeCheckError;
use vstd::prelude::*;
use vstd::std_specs::convert::FromSpecImpl;

verus! {

/// Why a program could not be resolved to its lowered form.
#[derive(Debug, Clone, PartialEq, Eq)]
pub enum ResolveError {
    UnresolvedPath { name: String },
    UndefinedVariable { name: String },
    DuplicateDefinition { name: String },
    UnresolveType { name: String },
    UnresolveTypes { names: Vec<String> },
    InvalidRetrunType,
    InvalidModuleScope,
    ExpectedValuePathButFoundType { name: String },
    TypeCheckError(TypeCheckError),
    ScopeError(ScopeError),
    NameSpaceError(NameSpaceError),
    DesugarError(DesugarError),
}

impl From<TypeCheckError> for ResolveError {
    fn from(value: TypeCheckError) -> (r: Self) {
        Self::TypeCheckError(value)
    }
}

impl FromSpecImpl<TypeCheckError> for ResolveError {
    open spec fn obeys_from_spec() -> bool {
        true
    }

    open spec fn from_spec(v: TypeCheckError) -> ResolveError {
        ResolveError::TypeCheckError(v)
    }
}

impl From<ScopeError> for ResolveError {
    fn from(value: ScopeError) -> (r: Self) {
        Self::ScopeError(value)
    }
}

impl FromSpecImpl<ScopeError> for ResolveError {
    open spec fn obeys_from_spec() -> bool {
        true
    }

    open spec fn from_spec(v: ScopeError) -> ResolveError {
        ResolveError::ScopeError(v)
    }
}

impl From<NameSpaceError> for ResolveError {
    fn from(value: NameSpaceError) -> (r: Self) {
        Self::NameSpaceError(value)
    }
}

impl FromSpecImpl<NameSpaceError> for ResolveError {
    open spec fn obeys_from_spec() -> bool {
        true
    }

    open spec fn from_spec(v: NameSpaceError) -> ResolveError {
        ResolveError::NameSpaceError(v)
    }
}

impl From<DesugarError> for ResolveError {
    fn from(value: DesugarError) -> (r: Self) {
        Self::DesugarError(value)
    }
}

impl FromSpecImpl<DesugarError> for ResolveError {
    open spec fn obeys_from_spec() -> bool {
        true
    }

    open spec fn from_spec(v: DesugarError) -> ResolveError {
        ResolveError::DesugarError(v)
    }
}

pub type ResolveResult<T> = Result<T, ResolveError>;

/// A lowered construct together with its type.
#[derive(Debug)]
pub struct Lowered<T> {
    pub type_symbol: TypeSymbol,
    pub hir: T,
}

impl<T> Lowered<T> {
    /// The construct and its type, apart.
    pub fn split(self) -> (r: (T, TypeSymbol))
        ensures
            r.0 == self.hir,
            r.1 == self.type_symbol,
    {
        (self.hir, self.type_symbol)
    }
}

} // verus!
