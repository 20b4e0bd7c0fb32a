use crate::hir::SymbolId;
use crate::primitive::{bool_debug, type_debug, PrimitiveType, TypeView};
use vstd::prelude::*;

verus! {

/// Whether a value may be changed, and whether it is reached through a reference.
#[derive(Debug, Clone, Copy, PartialEq, Eq)]
pub struct TypeOption {
    pub mutable: bool,
    pub reference: bool,
}

impl TypeOption {
    /// Neither mutable nor a reference.
    pub open spec fn plain() -> TypeOption {
        TypeOption { mutable: false, reference: false }
    }
}

impl Default for TypeOption {
    /// Neither mutable nor a reference.
    fn default() -> (o: Self)
        ensures
            o == TypeOption::plain(),
    {
        Self { mutable: false, reference: false }
    }
}

/// A type together with its options.
#[derive(Debug)]
pub struct TypeSymbol {
    pub type_kind: PrimitiveType,
    pub option: TypeOption,
}

pub struct TypeSymbolView {
    pub type_kind: TypeView,
    pub option: TypeOption,
}

impl View for TypeSymbol {
    type V = TypeSymbolView;

    open spec fn view(&self) -> TypeSymbolView {
        TypeSymbolView { type_kind: self.type_kind@, option: self.option }
    }
}

impl TypeSymbolView {
    /// `()` with neither option.
    pub open spec fn unit() -> TypeSymbolView {
        TypeSymbolView { type_kind: TypeView::Unit, option: TypeOption::plain() }
    }

    /// Same type, and both or neither a reference; mutability does not count.
    pub open spec fn same_type(self, other: TypeSymbolView) -> bool {
        self.type_kind == other.type_kind && self.option.reference == other.option.reference
    }
}

/// The text that `{:?}` prints for a typed value with these contents.
pub open spec fn type_symbol_debug(t: TypeSymbolView) -> Seq<char> {
    "TypeSymbol { type_kind: "@ + type_debug(t.type_kind) + ", option: TypeOption { mutable: "@ + bool_debug(
        t.option.mutable,
    ) + ", reference: "@ + bool_debug(t.option.reference) + " } }"@
}

impl TypeSymbol {
    /// What `{:?}` prints for the value.
    pub fn debug_text(&self) -> (s: String)
        ensures
            s@ == type_symbol_debug(self@),
    {
        let mut s = String::from_str("TypeSymbol { type_kind: ");
        self.type_kind.push_debug(&mut s);
        s.append(", option: TypeOption { mutable: ");
        s.append(if self.option.mutable { "true" } else { "false" });
        s.append(", reference: ");
        s.append(if self.option.reference { "true" } else { "false" });
        s.append(" } }");
        assert(s@ =~= type_symbol_debug(self@));
        s
    }

    /// `type_kind` with neither option.
    pub fn new(type_kind: PrimitiveType) -> (t: Self)
        ensures
            t.type_kind == type_kind,
            t.option == TypeOption::plain(),
    {
        Self { type_kind, option: TypeOption::default() }
    }

    pub fn is_mutable(&self) -> (r: bool)
        ensures
            r == self.option.mutable,
    {
        self.option.mutable
    }

    pub fn is_reference(&self) -> (r: bool)
        ensures
            r == self.option.reference,
    {
        self.option.reference
    }

    /// Same type, and both or neither a reference; mutability does not count.
    pub fn is_same_type(&self, ty: &Self) -> (r: bool)
        ensures
            r == self@.same_type(ty@),
    {
        self.type_kind.same_type(&ty.type_kind) && self.option.reference == ty.option.reference
    }

    pub fn get_type_option(&self) -> (o: &TypeOption)
        ensures
            *o == self.option,
    {
        &self.option
    }
}

impl Clone for TypeSymbol {
    fn clone(&self) -> (res: Self)
        ensures
            res@ == self@,
    {
        Self { type_kind: self.type_kind.deep_clone(), option: self.option }
    }
}

impl Default for TypeSymbol {
    /// `()` with neither option.
    fn default() -> (t: Self)
        ensures
            t@ == TypeSymbolView::unit(),
    {
        Self { type_kind: PrimitiveType::Unit, option: TypeOption::default() }
    }
}

/// What is known of the type of a name: the type itself, or only its options
/// while the type is still being inferred.
#[derive(Debug)]
pub enum TypeRequirement {
    Expect(TypeSymbol),
    Inferring(TypeOption),
}

pub enum TypeRequirementView {
    Expect(TypeSymbolView),
    Inferring(TypeOption),
}

impl TypeRequirementView {
    pub open spec fn option(self) -> TypeOption {
        match self {
            TypeRequirementView::Expect(t) => t.option,
            TypeRequirementView::Inferring(o) => o,
        }
    }
}

impl View for TypeRequirement {
    type V = TypeRequirementView;

    open spec fn view(&self) -> TypeRequirementView {
        match self {
            TypeRequirement::Expect(t) => TypeRequirementView::Expect(t@),
            TypeRequirement::Inferring(o) => TypeRequirementView::Inferring(*o),
        }
    }
}

impl TypeRequirement {
    pub fn is_inferring(&self) -> (r: bool)
        ensures
            r == (self@ is Inferring),
    {
        matches!(self, Self::Inferring(_))
    }

    pub fn get_type_option(&self) -> (o: &TypeOption)
        ensures
            *o == self@.option(),
    {
        match self {
            Self::Expect(ty) => ty.get_type_option(),
            Self::Inferring(op) => op,
        }
    }

    /// The type, once it is known.
    pub fn get_type(&self) -> (t: Option<&PrimitiveType>)
        ensures
            self@ is Expect <==> t is Some,
            t matches Some(p) ==> self@ matches TypeRequirementView::Expect(s) && p@ == s.type_kind,
    {
        match self {
            Self::Expect(ty) => Some(&ty.type_kind),
            Self::Inferring(_) => None,
        }
    }
}

impl Clone for TypeRequirement {
    fn clone(&self) -> (res: Self)
        ensures
            res@ == self@,
    {
        match self {
            Self::Expect(t) => Self::Expect(t.clone()),
            Self::Inferring(o) => Self::Inferring(*o),
        }
    }
}

/// What a name of a scope stands for.
#[derive(Debug)]
pub enum Symbol {
    Variable { id: SymbolId, ty: TypeRequirement },
    Type(TypeRequirement),
}

pub enum SymbolView {
    Variable { id: SymbolId, ty: TypeRequirementView },
    Type(TypeRequirementView),
}

impl SymbolView {
    pub open spec fn requirement(self) -> TypeRequirementView {
        match self {
            SymbolView::Variable { ty, .. } => ty,
            SymbolView::Type(t) => t,
        }
    }

    pub open spec fn contains_inferring(self) -> bool {
        self.requirement() is Inferring
    }
}

impl View for Symbol {
    type V = SymbolView;

    open spec fn view(&self) -> SymbolView {
        match self {
            Symbol::Variable { id, ty } => SymbolView::Variable { id: *id, ty: ty@ },
            Symbol::Type(t) => SymbolView::Type(t@),
        }
    }
}

impl Symbol {
    /// Whether the type of the name is still being inferred.
    pub fn contains_inferring(&self) -> (r: bool)
        ensures
            r == self@.contains_inferring(),
    {
        match self {
            Self::Variable { id: _, ty } => ty.is_inferring(),
            Self::Type(t) => t.is_inferring(),
        }
    }

    pub fn get_type_option(&self) -> (o: &TypeOption)
        ensures
            *o == self@.requirement().option(),
    {
        match self {
            Self::Type(t) => t.get_type_option(),
            Self::Variable { id: _, ty } => ty.get_type_option(),
        }
    }
}

impl Clone for Symbol {
    fn clone(&self) -> (res: Self)
        ensures
            res@ == self@,
    {
        match self {
            Self::Variable { id, ty } => Self::Variable { id: *id, ty: ty.clone() },
            Self::Type(t) => Self::Type(t.clone()),
        }
    }
}

} // verus!
