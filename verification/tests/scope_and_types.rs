use musubu::ast::{AssignOperator, Literal, LogicalOperator, Path, Pattern, TypeKind};
use musubu::hir::SymbolId;
use musubu::primitive::{BinaryOperator, ComparisonOperator, PrimitiveType};
use musubu::scope::errors::ScopeError;
use musubu::scope::{Scope, ScopeControl, Symbol, SymbolStore, TypeOption, TypeRequirement, TypeSymbol};
use musubu::span::{Span, Spanned};
use musubu::type_check::errors::TypeCheckError;
use musubu::type_check::TypeChecker;

fn fails<T>(r: Result<T, TypeCheckError>, e: TypeCheckError) {
    match r {
        Err(x) => assert_eq!(x, e),
        Ok(_) => panic!("expected {:?}", e),
    }
}

fn i32_type() -> PrimitiveType {
    PrimitiveType::Integer { signed: true, byte: 4 }
}

fn symbol(t: PrimitiveType, mutable: bool) -> TypeSymbol {
    TypeSymbol { type_kind: t, option: TypeOption { mutable, reference: false } }
}

fn zero() -> Span {
    Span { file_id: 0, start: 0, end: 0 }
}

#[test]
fn scope_add_then_get() {
    let mut scope = Scope::new();
    assert!(scope.add_variable(SymbolId(3), "x", TypeRequirement::Expect(TypeSymbol::new(i32_type()))).is_ok());
    assert!(scope.contains("x"));
    assert!(scope.is_variable("x"));
    assert!(!scope.is_type("x"));
    assert_eq!(scope.get_variable_id("x"), Some(&SymbolId(3)));
    assert_eq!(scope.get_type("x").unwrap().type_kind, i32_type());
    assert!(!scope.contains("y"));
    assert_eq!(scope.get_variable_id("y"), None);
}

#[test]
fn scope_duplicate_is_refused() {
    let mut scope = Scope::new();
    scope.add_type("T", TypeRequirement::Expect(TypeSymbol::new(PrimitiveType::Boolean))).unwrap();
    let err = scope.add_variable(SymbolId(0), "T", TypeRequirement::Inferring(TypeOption::default()));
    assert_eq!(err, Err(ScopeError::DuplicateType { name: "T".to_string() }));
    assert!(scope.is_type("T"));
    scope.add_variable(SymbolId(1), "v", TypeRequirement::Inferring(TypeOption::default())).unwrap();
    let err = scope.add_type("v", TypeRequirement::Inferring(TypeOption::default()));
    assert_eq!(err, Err(ScopeError::DuplicateVariable { name: "v".to_string() }));
}

#[test]
fn scope_resolve_once() {
    let mut scope = Scope::new();
    let option = TypeOption { mutable: true, reference: false };
    scope.add_variable(SymbolId(7), "a", TypeRequirement::Inferring(option)).unwrap();
    assert!(scope.contains_inferring_types());
    assert_eq!(scope.get_type("a").map(|t| t.type_kind.clone()), None);
    assert!(scope.resolve_variable_type("a", i32_type()).is_ok());
    assert!(!scope.contains_inferring_types());
    let t = scope.get_type("a").unwrap();
    assert_eq!(t.type_kind, i32_type());
    assert!(t.is_mutable());
    let again = scope.resolve_variable_type("a", PrimitiveType::Boolean);
    assert_eq!(
        again,
        Err(ScopeError::TypeConflict { name: "a".to_string(), expected: "Inferring".to_string(), found: "".to_string() })
    );
    assert_eq!(scope.get_type("a").unwrap().type_kind, i32_type());
}

#[test]
fn scope_resolve_errors() {
    let mut scope = Scope::new();
    assert_eq!(
        scope.resolve_variable_type("nothing", i32_type()),
        Err(ScopeError::UnresolvedVariable { name: "nothing".to_string() })
    );
    scope.add_type("T", TypeRequirement::Inferring(TypeOption::default())).unwrap();
    assert_eq!(
        scope.resolve_variable_type("T", i32_type()),
        Err(ScopeError::NotVariable { name: "T".to_string(), found: "Type".to_string() })
    );
}

#[test]
fn scope_inferring_names_in_order() {
    let mut scope = Scope::new();
    let inferring = || TypeRequirement::Inferring(TypeOption::default());
    scope.add_variable(SymbolId(0), "zeta", inferring()).unwrap();
    scope.add_variable(SymbolId(1), "alpha", inferring()).unwrap();
    scope.add_variable(SymbolId(2), "known", TypeRequirement::Expect(TypeSymbol::new(i32_type()))).unwrap();
    scope.add_type("Mid", inferring()).unwrap();
    assert_eq!(scope.get_inferring_names(), vec!["Mid".to_string(), "alpha".to_string(), "zeta".to_string()]);
}

#[test]
fn scope_return_type_and_imports() {
    let mut scope = Scope::new();
    assert_eq!(scope.get_return_type().type_kind, PrimitiveType::Unit);
    scope.set_return_type(TypeSymbol::new(PrimitiveType::Boolean));
    assert_eq!(scope.get_return_type().type_kind, PrimitiveType::Boolean);
    assert!(scope.add_import_type("Vec").is_ok());
    assert!(scope.add_import_type("Vec").is_ok());
}

#[test]
fn type_symbol_same_type_ignores_mutability() {
    let a = symbol(i32_type(), true);
    let b = symbol(i32_type(), false);
    assert!(a.is_same_type(&b));
    let c = TypeSymbol { type_kind: i32_type(), option: TypeOption { mutable: false, reference: true } };
    assert!(!a.is_same_type(&c));
}

#[test]
fn binary_operator_checks() {
    let checker = TypeChecker::new();
    let ok = checker.check_binary_operator(&BinaryOperator::Addition, symbol(i32_type(), false), symbol(i32_type(), false));
    assert_eq!(ok.unwrap().type_kind, i32_type());
    let float = PrimitiveType::Float { byte: 4 };
    let err = checker.check_binary_operator(&BinaryOperator::Modulo, symbol(float.clone(), false), symbol(float.clone(), false));
    fails(err, TypeCheckError::InvalidOperation { op: "Modulo".to_string(), reason: "unsupported binary operator".to_string() });
    let mismatch = checker.check_binary_operator(&BinaryOperator::Addition, symbol(i32_type(), false), symbol(float.clone(), false));
    fails(mismatch, TypeCheckError::TypeMismatch { expected: i32_type(), found: float });
    let boolean = checker.check_binary_operator(&BinaryOperator::Addition, symbol(PrimitiveType::Boolean, false), symbol(PrimitiveType::Boolean, false));
    match boolean {
        Err(TypeCheckError::InvalidOperation { op, reason }) => {
            assert!(op.starts_with("Addition lhs: "));
            assert!(op.contains(" rhs: "));
            assert_eq!(reason, "unsupported binary operator");
        }
        other => panic!("unexpected {:?}", other),
    }
}

#[test]
fn pointer_operands_are_refused() {
    let checker = TypeChecker::new();
    let pointer = PrimitiveType::Pointer { point: Box::new(i32_type()) };
    let err = checker.check_comparison_operator(&ComparisonOperator::Equal, symbol(pointer.clone(), false), symbol(pointer.clone(), false));
    fails(err, TypeCheckError::TypeMismatch { expected: pointer.clone(), found: pointer });
}

#[test]
fn assign_needs_mutable() {
    let checker = TypeChecker::new();
    let err = checker.check_assign_operator(&AssignOperator::AddAssign, symbol(i32_type(), false), symbol(i32_type(), false));
    fails(err, TypeCheckError::NotMutable { name: "int_32".to_string() });
    let ok = checker.check_assign_operator(&AssignOperator::AddAssign, symbol(i32_type(), true), symbol(i32_type(), false));
    assert!(ok.is_ok());
    let float = PrimitiveType::Float { byte: 8 };
    let err = checker.check_assign_operator(&AssignOperator::XorAssign, symbol(float.clone(), true), symbol(float, true));
    fails(err, TypeCheckError::InvalidOperation { op: "XorAssign".to_string(), reason: "unsupported assign operator".to_string() });
}

#[test]
fn comparison_and_logical_checks() {
    let checker = TypeChecker::new();
    let float = PrimitiveType::Float { byte: 4 };
    let err = checker.check_comparison_operator(&ComparisonOperator::Equal, symbol(float.clone(), false), symbol(float.clone(), false));
    fails(err, TypeCheckError::InvalidOperation { op: "Equal".to_string(), reason: "unsupported comparison operator".to_string() });
    assert!(checker.check_comparison_operator(&ComparisonOperator::LessThan, symbol(float.clone(), false), symbol(float, false)).is_ok());
    let err = checker.check_logical_operator(&LogicalOperator::And, symbol(i32_type(), false), symbol(i32_type(), false));
    fails(err, TypeCheckError::InvalidOperation { op: "And".to_string(), reason: "unsupported logical operator".to_string() });
    assert!(checker.check_logical_operator(&LogicalOperator::Or, symbol(PrimitiveType::Boolean, false), symbol(PrimitiveType::Boolean, false)).is_ok());
}

#[test]
fn scope_stack_of_checker() {
    let mut checker = TypeChecker::new();
    fails(checker.on_exit_scope(), TypeCheckError::ScopeError(ScopeError::InvalidScope));
    fails(checker.set_scope_return_type(TypeSymbol::new(i32_type())), TypeCheckError::ScopeError(ScopeError::InvalidScope));
    checker.on_enter_scope().unwrap();
    assert!(checker.set_scope_return_type(TypeSymbol::new(i32_type())).is_ok());
    assert!(checker.on_exit_scope().is_ok());
    assert!(checker.on_exit_scope().is_err());
}

#[test]
fn return_checks() {
    let mut checker = TypeChecker::new();
    fails(checker.check_return(TypeSymbol::new(i32_type())), TypeCheckError::InvalidReturnScope);
    checker.enter_function(TypeSymbol::new(i32_type()));
    assert!(checker.check_return(TypeSymbol::new(i32_type())).is_ok());
    fails(checker.check_return(TypeSymbol::new(PrimitiveType::Boolean)), TypeCheckError::FunctionReturnMismatch { expected: i32_type(), found: PrimitiveType::Boolean });
    checker.exit_function();
    fails(checker.check_return(TypeSymbol::new(i32_type())), TypeCheckError::InvalidReturnScope);
}

#[test]
fn if_checks() {
    let checker = TypeChecker::new();
    let err = checker.check_if_statement(TypeSymbol::new(i32_type()), TypeSymbol::new(PrimitiveType::Unit), None);
    fails(err, TypeCheckError::TypeMismatch { expected: PrimitiveType::Boolean, found: i32_type() });
    let ok = checker.check_if_statement(TypeSymbol::new(PrimitiveType::Boolean), TypeSymbol::new(i32_type()), Some(TypeSymbol::new(i32_type())));
    assert_eq!(ok.unwrap().type_kind, i32_type());
    let err = checker.check_if_statement(TypeSymbol::new(PrimitiveType::Boolean), TypeSymbol::new(i32_type()), Some(TypeSymbol::new(PrimitiveType::Unit)));
    fails(err, TypeCheckError::TypeMismatch { expected: i32_type(), found: PrimitiveType::Unit });
}

#[test]
fn type_checks_through_scope() {
    let checker = TypeChecker::new();
    let mut scope = Scope::new();
    scope.add_type("Meters", TypeRequirement::Expect(TypeSymbol::new(i32_type()))).unwrap();
    let path_type = TypeKind::make_single_type("Meters".to_string(), zero());
    assert_eq!(checker.check_type(&scope, &path_type).unwrap().type_kind, i32_type());
    let unknown = TypeKind::make_single_type("Feet".to_string(), zero());
    fails(checker.check_type(&scope, &unknown), TypeCheckError::UnknownType { name: "Feet".to_string() });
    let function = TypeKind::Function {
        params: vec![Spanned { node: TypeKind::Primitive(PrimitiveType::Boolean), span: zero() }, Spanned { node: path_type, span: zero() }],
        return_type: Spanned { node: Box::new(TypeKind::Primitive(PrimitiveType::Unit)), span: zero() },
    };
    let t = checker.check_type(&scope, &function).unwrap();
    assert_eq!(
        t.type_kind,
        PrimitiveType::Function { return_type: Box::new(PrimitiveType::Unit), arguments: vec![PrimitiveType::Boolean, i32_type()] }
    );
    let literal = Literal::Bool(true);
    assert_eq!(checker.check_literal(&scope, &literal).unwrap().type_kind, PrimitiveType::Boolean);
    let mut path = Path::make("outer".to_string(), zero());
    path.add_path(Spanned { node: musubu::ast::PathSegment { ident: "Meters".to_string(), arguments: vec![] }, span: zero() });
    assert_eq!(checker.check_path(&scope, &path).unwrap().type_kind, i32_type());
}

#[test]
fn function_call_gives_return_type() {
    let checker = TypeChecker::new();
    let f = TypeSymbol::new(PrimitiveType::Function { return_type: Box::new(PrimitiveType::Boolean), arguments: vec![i32_type()] });
    let arg = TypeSymbol::new(i32_type());
    assert_eq!(checker.check_function_call(&f, &[&arg]).unwrap().type_kind, PrimitiveType::Boolean);
    let not_callable = TypeSymbol::new(i32_type());
    fails(checker.check_function_call(&not_callable, &[]), TypeCheckError::NotCallable { found: i32_type() });
}

#[test]
fn let_statement_checks() {
    let checker = TypeChecker::new();
    let mut scope = Scope::new();
    scope.add_variable(SymbolId(0), "x", TypeRequirement::Inferring(TypeOption::default())).unwrap();
    let pattern = Pattern::Identifier { ident: "x".to_string(), mutable: false, reference: false };
    let res = checker.check_let_statenent(&scope, &pattern, Some(TypeSymbol::new(i32_type())), None).unwrap();
    assert_eq!(res.unwrap().type_kind, i32_type());
    let res = checker.check_let_statenent(&scope, &pattern, None, None).unwrap();
    assert!(res.is_none());
    let err = checker.check_let_statenent(&scope, &pattern, Some(TypeSymbol::new(i32_type())), Some(TypeSymbol::new(PrimitiveType::Boolean)));
    fails(err, TypeCheckError::TypeMismatch { expected: PrimitiveType::Boolean, found: i32_type() });
    let unknown = Pattern::Identifier { ident: "y".to_string(), mutable: false, reference: false };
    let err = checker.check_let_statenent(&scope, &unknown, None, Some(TypeSymbol::new(i32_type())));
    fails(err, TypeCheckError::UnknownPattern { name: "y".to_string() });
    let tuple = Pattern::Multiply(vec![Spanned { node: Pattern::Empty, span: zero() }]);
    let pair = PrimitiveType::Struct { elements: vec![i32_type(), i32_type()] };
    let err = checker.resolve_pattern(&scope, &tuple, &pair);
    fails(err, TypeCheckError::TupleCountMismatch { expected: 1, found: 2 });
}

#[test]
fn symbol_options() {
    let s = Symbol::Variable { id: SymbolId(1), ty: TypeRequirement::Inferring(TypeOption { mutable: true, reference: true }) };
    assert!(s.contains_inferring());
    assert!(s.get_type_option().mutable);
    let t = TypeRequirement::Expect(TypeSymbol::new(i32_type()));
    assert_eq!(t.get_type(), Some(&i32_type()));
    assert!(!t.is_inferring());
}

#[test]
fn debug_text_matches_debug_output() {
    let samples = vec![
        TypeSymbol::new(PrimitiveType::Unit),
        TypeSymbol::new(PrimitiveType::Integer { signed: true, byte: 4 }),
        TypeSymbol {
            type_kind: PrimitiveType::Struct {
                elements: vec![PrimitiveType::Boolean, PrimitiveType::Float { byte: 8 }],
            },
            option: TypeOption { mutable: true, reference: false },
        },
        TypeSymbol::new(PrimitiveType::Function {
            return_type: Box::new(PrimitiveType::Pointer { point: Box::new(PrimitiveType::Boolean) }),
            arguments: vec![],
        }),
        TypeSymbol::new(PrimitiveType::Matrix {
            type_kind: Box::new(PrimitiveType::Vector { type_kind: Box::new(PrimitiveType::Float { byte: 4 }), dimension: 3 }),
            rows: 4,
            columns: 12,
        }),
        TypeSymbol::new(PrimitiveType::Array { type_kind: Box::new(PrimitiveType::Enumeration { variants: vec![PrimitiveType::Unit] }), size: 100 }),
    ];
    for t in samples {
        assert_eq!(t.debug_text(), format!("{:?}", t));
    }
}
