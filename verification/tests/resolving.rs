use musubu::ast::{ASTNode, AssignOperator, Expression, FunctionParam, Item, Literal, Path, Pattern, Statement, TypeKind, Visibility};
use musubu::resolve::module_resolution::{resolve_sequential, resolve_unordered};
use musubu::cache::{Allocator, Cache, CacheCollector, FunctionCache, LinearAllocator};
use musubu::hir::{Constant, HIRExpression, HIRModule, HIRStatement, SymbolId};
use musubu::ir::{CompiledFunction, Instruction, Register};
use musubu::primitive::{BinaryOperator, PrimitiveType};
use musubu::resolve::resolver::Resolver;
use musubu::resolve::ResolveError;
use musubu::scope::errors::ScopeError;
use musubu::span::{Span, Spanned};
use musubu::type_check::errors::TypeCheckError;

fn span() -> Span {
    Span { file_id: 0, start: 0, end: 0 }
}

fn sp<T>(node: T) -> Spanned<T> {
    Spanned { node, span: span() }
}

fn bx(e: Expression) -> Spanned<Box<Expression>> {
    sp(Box::new(e))
}

fn i32_type() -> PrimitiveType {
    PrimitiveType::Integer { signed: true, byte: 4 }
}

fn int_lit(v: &str) -> Expression {
    Expression::Literal(sp(Literal::Integer { value: v.to_string(), value_type: TypeKind::Primitive(i32_type()) }))
}

fn name(n: &str) -> Expression {
    Expression::Path(sp(Path::make(n.to_string(), span())))
}

fn block(statements: Vec<Statement>) -> Expression {
    Expression::Block(statements.into_iter().map(sp).collect())
}

fn expr(e: Expression) -> Statement {
    Statement::Expression(bx(e))
}

fn resolver() -> Resolver<'static> {
    Resolver::new("project", HIRModule::new(), LinearAllocator::new())
}

#[test]
fn a_block_lowers_an_addition() {
    let e = block(vec![expr(Expression::Binary {
        operator: BinaryOperator::Addition,
        left: bx(int_lit("1")),
        right: bx(int_lit("2")),
    })]);
    let e: &'static Expression = Box::leak(Box::new(e));
    let mut r = resolver();
    let l = r.resolve_expression(e).unwrap();
    assert_eq!(l.type_symbol.type_kind, i32_type());
    match l.hir {
        HIRExpression::Block(b) => {
            assert_eq!(b.statements.len(), 1);
            match &b.statements[0] {
                HIRStatement::Expr(HIRExpression::BinOp { op: BinaryOperator::Addition, lhs, rhs }) => {
                    assert!(matches!(**lhs, HIRExpression::Literal(Constant::Integer(_))));
                    assert!(matches!(**rhs, HIRExpression::Literal(Constant::Integer(_))));
                },
                other => panic!("not an addition: {other:?}"),
            }
        },
        other => panic!("not a block: {other:?}"),
    }
}

#[test]
fn a_variable_is_declared_assigned_and_read() {
    let e = block(vec![
        Statement::Let {
            name: sp(Pattern::Identifier { ident: "x".to_string(), mutable: true, reference: false }),
            variable_type: Some(sp(TypeKind::Primitive(i32_type()))),
            label: None,
            initializer: Some(bx(int_lit("1"))),
        },
        expr(Expression::Assign {
            operator: AssignOperator::AddAssign,
            left: bx(name("x")),
            right: bx(int_lit("2")),
        }),
        expr(name("x")),
    ]);
    let e: &'static Expression = Box::leak(Box::new(e));
    let mut r = resolver();
    let l = r.resolve_expression(e).unwrap();
    assert_eq!(l.type_symbol.type_kind, i32_type());
    let HIRExpression::Block(b) = l.hir else { panic!("not a block") };
    assert_eq!(b.statements.len(), 3);
    match &b.statements[0] {
        HIRStatement::Let { symbol, symbol_type, initializer: Some(HIRExpression::Literal(_)) } => {
            assert_eq!(*symbol, SymbolId(1));
            assert_eq!(*symbol_type, PrimitiveType::Unit);
        },
        other => panic!("not a let: {other:?}"),
    }
    match &b.statements[1] {
        HIRStatement::Expr(HIRExpression::Store { target, value }) => {
            assert_eq!(*target, SymbolId(0));
            assert!(matches!(**value, HIRExpression::BinOp { op: BinaryOperator::Addition, .. }));
        },
        other => panic!("not a store: {other:?}"),
    }
    match &b.statements[2] {
        HIRStatement::Expr(HIRExpression::Variable { id, .. }) => assert_eq!(*id, SymbolId(0)),
        other => panic!("not the variable: {other:?}"),
    }
}

#[test]
fn operands_of_different_types_are_refused() {
    let e = block(vec![expr(Expression::Binary {
        operator: BinaryOperator::Addition,
        left: bx(int_lit("1")),
        right: bx(Expression::Literal(sp(Literal::Bool(true)))),
    })]);
    let e: &'static Expression = Box::leak(Box::new(e));
    let mut r = resolver();
    let err = r.resolve_expression(e).unwrap_err();
    assert_eq!(
        err,
        ResolveError::TypeCheckError(TypeCheckError::TypeMismatch { expected: i32_type(), found: PrimitiveType::Boolean })
    );
}

#[test]
fn an_unknown_name_is_unresolved() {
    let e: &'static Expression = Box::leak(Box::new(block(vec![expr(name("y"))])));
    let mut r = resolver();
    assert_eq!(r.resolve_expression(e).unwrap_err(), ResolveError::UnresolvedPath { name: "y".to_string() });
}

#[test]
fn a_literal_needs_an_open_block() {
    let e: &'static Expression = Box::leak(Box::new(int_lit("5")));
    let mut r = resolver();
    assert_eq!(r.resolve_expression(e).unwrap_err(), ResolveError::ScopeError(ScopeError::InvalidScope));
}

#[test]
fn a_return_needs_a_function() {
    let e: &'static Expression = Box::leak(Box::new(block(vec![expr(Expression::Return(Some(bx(int_lit("1")))))])));
    let mut r = resolver();
    assert_eq!(r.resolve_expression(e).unwrap_err(), ResolveError::TypeCheckError(TypeCheckError::InvalidReturnScope));
}

#[test]
fn an_empty_block_is_unit() {
    let e: &'static Expression = Box::leak(Box::new(block(vec![])));
    let mut r = resolver();
    let l = r.resolve_expression(e).unwrap();
    assert_eq!(l.type_symbol.type_kind, PrimitiveType::Unit);
}

fn function(registers: usize) -> CompiledFunction {
    CompiledFunction { code: vec![Instruction::Return { value: Some(Register(0)) }], registers }
}

#[test]
fn a_registered_function_is_found_again() {
    let mut cache = Cache::new();
    assert!(cache.get_function(&3).is_none());
    cache.register_function(3, function(2));
    cache.register_type(3, PrimitiveType::Boolean);
    assert_eq!(cache.get_function(&3).unwrap().registers, 2);
    cache.register_function(3, function(5));
    assert_eq!(cache.get_function(&3).unwrap().registers, 5);
    assert!(cache.get_function(&4).is_none());
}

#[test]
fn the_function_cache_numbers_names() {
    let mut cache = FunctionCache::new();
    {
        let a = cache.get_allocator();
        assert_eq!(a.allocate("main".to_string()), 0);
        assert_eq!(a.allocate("helper".to_string()), 1);
        assert_eq!(a.allocate("main".to_string()), 0);
    }
    cache.register(1, function(1));
    assert_eq!(cache.get(&1).unwrap().registers, 1);
    let mut whole = Cache::new();
    assert_eq!(whole.get_function_allocator().allocate("f".to_string()), 0);
}

fn function_item(name: &str, params: Vec<FunctionParam>, body: Option<Expression>) -> ASTNode {
    ASTNode::Item {
        visibility: Visibility::Private,
        item: sp(Item::Function {
            name: name.to_string(),
            params: params.into_iter().map(sp).collect(),
            return_type: Some(sp(TypeKind::Primitive(i32_type()))),
            body: body.map(bx),
        }),
    }
}

fn param(n: &str) -> FunctionParam {
    FunctionParam {
        pattern: Some(sp(Pattern::Identifier { ident: n.to_string(), mutable: false, reference: false })),
        param_type: sp(TypeKind::Primitive(i32_type())),
    }
}

#[test]
fn a_module_lowers_each_function_with_a_body() {
    let add = function_item(
        "add",
        vec![param("a"), param("b")],
        Some(Expression::Binary { operator: BinaryOperator::Addition, left: bx(name("a")), right: bx(name("b")) }),
    );
    let declared = function_item("declared", vec![], None);
    let items: &'static [ASTNode] = Box::leak(vec![add, declared].into_boxed_slice());
    let refs: Vec<&'static ASTNode> = items.iter().collect();
    let mut allocator = LinearAllocator::new();
    let module = resolve_unordered("project", "main", &refs, &mut allocator).unwrap();
    assert_eq!(module.functions.len(), 1);
    let (_, f) = &module.functions[0];
    assert_eq!(f.params.len(), 2);
    assert_eq!(f.params[0].0, SymbolId(0));
    assert_eq!(f.params[1].0, SymbolId(1));
    assert_eq!(f.return_type, i32_type());
    assert_eq!(f.body.statements.len(), 1);
    assert!(matches!(&f.body.statements[0], HIRStatement::Expr(HIRExpression::BinOp { op: BinaryOperator::Addition, .. })));
    assert_eq!(allocator.allocate("add".to_string()), 0);
    assert_eq!(allocator.allocate("declared".to_string()), 1);
}

#[test]
fn a_function_defined_twice_is_refused() {
    let one = function_item("f", vec![], Some(block(vec![expr(int_lit("1"))])));
    let two = function_item("f", vec![], Some(block(vec![expr(int_lit("2"))])));
    let items: &'static [ASTNode] = Box::leak(vec![one, two].into_boxed_slice());
    let refs: Vec<&'static ASTNode> = items.iter().collect();
    let mut allocator = LinearAllocator::new();
    assert!(resolve_unordered("project", "main", &refs, &mut allocator).is_err());
    let mut allocator = LinearAllocator::new();
    let module = resolve_sequential("project", "main", &refs[..1], &mut allocator).unwrap();
    assert_eq!(module.functions.len(), 1);
}
