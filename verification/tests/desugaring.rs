use musubu::ast::{AssignOperator, Literal, LogicalOperator, Pattern, TypeKind};
use musubu::cache::LinearAllocator;
use musubu::desugar::{Desugar, DesugarError};
use musubu::hir::{Constant, HIRExpression, HIRModule, HIRStatement, SymbolId};
use musubu::primitive::{BinaryOperator, Integer, PrimitiveType};

fn desugar() -> Desugar {
    Desugar::new(HIRModule::new(), LinearAllocator::new())
}

fn i32_type() -> PrimitiveType {
    PrimitiveType::Integer { signed: true, byte: 4 }
}

fn var(id: usize) -> HIRExpression {
    HIRExpression::Variable { id: SymbolId(id), symbol_type: i32_type() }
}

#[test]
fn compound_assignment_stores_the_operation() {
    let mut d = desugar();
    let e = d.lower_assign_operator(AssignOperator::SubAssign, var(3), var(4)).unwrap();
    match e {
        HIRExpression::Store { target, value } => {
            assert_eq!(target, SymbolId(3));
            assert!(matches!(*value, HIRExpression::BinOp { op: BinaryOperator::Subtract, .. }));
        }
        other => panic!("not a store: {other:?}"),
    }
    let plain = d.lower_assign_operator(AssignOperator::Assign, var(3), var(4)).unwrap();
    assert!(matches!(plain, HIRExpression::Store { target: SymbolId(3), value } if matches!(*value, HIRExpression::Variable { id: SymbolId(4), .. })));
}

#[test]
fn assignment_to_a_non_variable_fails() {
    let mut d = desugar();
    let r = d.lower_assign_operator(AssignOperator::Assign, HIRExpression::Continue, var(1));
    assert!(matches!(r, Err(DesugarError::UnsupportedAssignTarget)));
}

#[test]
fn or_becomes_a_condition() {
    let mut d = desugar();
    let e = d.lower_logical_operator(LogicalOperator::Or, var(0), var(1)).unwrap();
    match e {
        HIRExpression::If { cond, then_block, else_block: Some(else_block) } => {
            assert!(matches!(*cond, HIRExpression::Variable { id: SymbolId(0), .. }));
            assert!(matches!(then_block.statements[0], HIRStatement::Expr(HIRExpression::Literal(Constant::Bool(true)))));
            assert!(matches!(else_block.statements[0], HIRStatement::Expr(HIRExpression::Variable { id: SymbolId(1), .. })));
        }
        other => panic!("not an if: {other:?}"),
    }
}

#[test]
fn let_numbers_variables_in_order() {
    let mut d = desugar();
    let pattern = Pattern::Identifier { ident: "x".to_string(), mutable: false, reference: false };
    let first = d.lower_let_statement(&pattern, Some(var(7))).unwrap().unwrap();
    let second = d.lower_let_statement(&pattern, None).unwrap().unwrap();
    assert!(matches!(first, HIRStatement::Let { symbol: SymbolId(0), symbol_type: PrimitiveType::Integer { signed: true, byte: 4 }, .. }));
    assert!(matches!(second, HIRStatement::Let { symbol: SymbolId(1), symbol_type: PrimitiveType::Unit, initializer: None }));
    assert!(d.lower_let_statement(&Pattern::Empty, None).unwrap().is_none());
}

#[test]
fn integer_literal_lowers_to_its_value() {
    let mut d = desugar();
    let lit = Literal::Integer { value: "42".to_string(), value_type: TypeKind::Primitive(i32_type()) };
    let e = d.lower_literal(&lit).unwrap();
    assert!(matches!(e, HIRExpression::Literal(Constant::Integer(Integer::Int32(42)))));
}

#[test]
fn while_becomes_a_loop_with_a_break() {
    let mut d = desugar();
    let body = d.lower_block(vec![]).unwrap();
    let e = d.lower_while(var(0), body).unwrap();
    match e {
        HIRExpression::Loop { body } => match &body.statements[0] {
            HIRStatement::Expr(HIRExpression::If { else_block: Some(eb), .. }) => {
                assert!(matches!(eb.statements[0], HIRStatement::Expr(HIRExpression::Break(None))));
            }
            other => panic!("not an if: {other:?}"),
        },
        other => panic!("not a loop: {other:?}"),
    }
}

#[test]
fn calling_a_non_function_fails() {
    let mut d = desugar();
    assert!(matches!(d.lower_call(var(0), vec![]), Err(DesugarError::NotFunction)));
}
