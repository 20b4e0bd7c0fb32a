use musubu::hir::SymbolId;
use musubu::name_space::errors::NameSpaceError;
use musubu::name_space::{FunctionItem, ItemStore, ItemStoreReader, StructItem};
use musubu::primitive::PrimitiveType;
use musubu::resolve::collector::SymbolCollector;
use musubu::resolve::name_resolver::NameResolver;
use musubu::resolve::{Lowered, ResolveError};
use musubu::scope::errors::ScopeError;
use musubu::scope::{ScopeControl, SymbolStore, TypeOption, TypeRequirement, TypeSymbol};
use musubu::type_check::errors::TypeCheckError;

fn i32_type() -> PrimitiveType {
    PrimitiveType::Integer { signed: true, byte: 4 }
}

#[test]
fn collector_refuses_twice() {
    let mut c = SymbolCollector::new();
    assert!(c.insert("main").is_ok());
    assert!(c.contains("main"));
    assert_eq!(c.insert("main"), Err(ResolveError::DuplicateDefinition { name: "main".to_string() }));
    assert!(c.remove("main"));
    assert!(!c.contains("main"));
    assert!(!c.remove("main"));
    assert!(c.insert("main").is_ok());
}

#[test]
fn resolver_needs_a_block() {
    let mut r = NameResolver::new("project");
    assert_eq!(
        r.add_type("T", TypeRequirement::Expect(TypeSymbol::new(i32_type()))),
        Err(ResolveError::ScopeError(ScopeError::InvalidScope))
    );
    assert_eq!(r.on_exit_scope(), Err(ResolveError::ScopeError(ScopeError::InvalidScope)));
    assert!(r.get_scope().is_none());
    assert!(!r.contains("T"));
}

#[test]
fn resolver_scopes() {
    let mut r = NameResolver::new("project");
    r.on_enter_scope().unwrap();
    r.add_variable(SymbolId(0), "x", TypeRequirement::Expect(TypeSymbol::new(i32_type()))).unwrap();
    assert!(r.is_variable("x"));
    assert_eq!(r.get_variable_id("x"), Some(&SymbolId(0)));
    r.on_enter_scope().unwrap();
    assert!(!r.contains("x"));
    r.add_variable(SymbolId(1), "y", TypeRequirement::Inferring(TypeOption::default())).unwrap();
    assert_eq!(r.on_exit_scope(), Err(ResolveError::UnresolveTypes { names: vec!["y".to_string()] }));
    assert!(r.contains("x"));
    assert!(r.on_exit_scope().is_ok());
}

#[test]
fn resolver_settles_types() {
    let mut r = NameResolver::new("project");
    r.on_enter_scope().unwrap();
    r.add_variable(SymbolId(4), "v", TypeRequirement::Inferring(TypeOption::default())).unwrap();
    assert!(r.resolve_variable_type("v", PrimitiveType::Boolean).is_ok());
    assert_eq!(r.get_type("v").unwrap().type_kind, PrimitiveType::Boolean);
    assert!(r.on_exit_scope().is_ok());
}

#[test]
fn resolver_modules() {
    let mut r = NameResolver::new("project");
    assert_eq!(
        r.add_function(FunctionItem::new(0, "main", TypeSymbol::new(PrimitiveType::Unit))),
        Err(ResolveError::ScopeError(ScopeError::InvalidScope))
    );
    r.enter_module("krate").unwrap();
    r.enter_module("inner").unwrap();
    assert_eq!(r.get_full_path("f"), vec!["krate", "inner", "f"]);
    assert!(r.add_struct(StructItem::new("Point")).is_ok());
    assert_eq!(
        r.add_struct(StructItem::new("Point")),
        Err(ResolveError::NameSpaceError(NameSpaceError::DuplicateStruct { name: "Point".to_string() }))
    );
    assert!(r.get_struct("Point").is_some());
    assert!(r.get_item("Point").is_some());
    r.on_enter_scope().unwrap();
    assert_eq!(r.get_type("Point").unwrap().type_kind, PrimitiveType::Struct { elements: vec![] });
    r.on_exit_scope().unwrap();
    r.exit_module().unwrap();
    assert!(r.get_struct("Point").is_none());
    r.exit_module().unwrap();
    assert_eq!(r.exit_module(), Err(ResolveError::InvalidModuleScope));
}

#[test]
fn errors_convert() {
    let e: ResolveError = TypeCheckError::InvalidReturnScope.into();
    assert_eq!(e, ResolveError::TypeCheckError(TypeCheckError::InvalidReturnScope));
    let s: ResolveError = ScopeError::InvalidScope.into();
    assert_eq!(s, ResolveError::ScopeError(ScopeError::InvalidScope));
    let l = Lowered { type_symbol: TypeSymbol::new(i32_type()), hir: 5u8 };
    let (hir, t) = l.split();
    assert_eq!(hir, 5);
    assert_eq!(t.type_kind, i32_type());
}
