use musubu::hir::{
    Constant, FunctionId, FunctionType, HIRBlock, HIRExpression, HIRFunction, HIRModule, HIRStatement, SymbolId,
};
use musubu::ir::Instruction;
use musubu::ir_compiler::errors::IRCompileError;
use musubu::ir_compiler::{compile_function, compile_module};
use musubu::primitive::{BinaryOperator, Integer, PrimitiveType};

fn int_const(v: i32) -> HIRExpression {
    HIRExpression::Literal(Constant::Integer(Integer::Int32(v)))
}

fn block(exprs: Vec<HIRExpression>) -> HIRBlock {
    HIRBlock { statements: exprs.into_iter().map(HIRStatement::Expr).collect() }
}

fn function(params: usize, body: HIRBlock) -> HIRFunction {
    HIRFunction {
        id: FunctionId { id: FunctionType::UserDefined(0) },
        params: (0..params).map(|i| (SymbolId(i), PrimitiveType::Integer { signed: true, byte: 4 })).collect(),
        return_type: PrimitiveType::Integer { signed: true, byte: 4 },
        body,
    }
}

#[test]
fn binary_operation_uses_registers_after_parameters() {
    let x = HIRExpression::Variable { id: SymbolId(0), symbol_type: PrimitiveType::Integer { signed: true, byte: 4 } };
    let sum = HIRExpression::BinOp { op: BinaryOperator::Addition, lhs: Box::new(x), rhs: Box::new(int_const(1)) };
    let f = compile_function(&function(1, block(vec![HIRExpression::Return(Some(Box::new(sum)))]))).unwrap();
    assert_eq!(f.registers, 3);
    assert_eq!(f.code.len(), 3);
    assert!(matches!(f.code[0], Instruction::LoadConst { dst, value: Constant::Integer(Integer::Int32(1)) } if dst.0 == 1));
    assert!(matches!(f.code[1], Instruction::BinOp { dst, op: BinaryOperator::Addition, lhs, rhs } if dst.0 == 2 && lhs.0 == 0 && rhs.0 == 1));
    assert!(matches!(f.code[2], Instruction::Return { value: Some(r) } if r.0 == 2));
}

#[test]
fn if_else_jumps_around_the_branches() {
    let e = HIRExpression::If {
        cond: Box::new(HIRExpression::Literal(Constant::Bool(true))),
        then_block: block(vec![int_const(1)]),
        else_block: Some(block(vec![int_const(2)])),
    };
    let f = compile_function(&function(0, block(vec![e]))).unwrap();
    assert_eq!(f.code.len(), 5);
    assert!(matches!(f.code[0], Instruction::LoadConst { dst, value: Constant::Bool(true) } if dst.0 == 0));
    assert!(matches!(f.code[1], Instruction::JumpIfFalse { cond, target: 4 } if cond.0 == 0));
    assert!(matches!(f.code[2], Instruction::LoadConst { dst, .. } if dst.0 == 1));
    assert!(matches!(f.code[3], Instruction::Jump { target: 5 }));
    assert!(matches!(f.code[4], Instruction::LoadConst { dst, .. } if dst.0 == 2));
    assert_eq!(f.registers, 3);
}

#[test]
fn loop_jumps_back_and_break_jumps_past_itself() {
    let e = HIRExpression::Loop { body: block(vec![HIRExpression::Break(None)]) };
    let f = compile_function(&function(0, block(vec![e]))).unwrap();
    assert_eq!(f.code.len(), 2);
    assert!(matches!(f.code[0], Instruction::Jump { target: 1 }));
    assert!(matches!(f.code[1], Instruction::Jump { target: 0 }));
}

#[test]
fn let_moves_into_the_variable_register() {
    let body = HIRBlock {
        statements: vec![HIRStatement::Let {
            symbol: SymbolId(5),
            symbol_type: PrimitiveType::Integer { signed: true, byte: 4 },
            initializer: Some(int_const(7)),
        }],
    };
    let f = compile_function(&function(0, body)).unwrap();
    assert_eq!(f.code.len(), 2);
    assert!(matches!(f.code[1], Instruction::Move { dst, src } if dst.0 == 5 && src.0 == 0));
}

#[test]
fn call_passes_argument_registers() {
    let call = HIRExpression::Call { function: SymbolId(9), args: vec![int_const(1), int_const(2)] };
    let f = compile_function(&function(0, block(vec![call]))).unwrap();
    assert_eq!(f.code.len(), 3);
    match &f.code[2] {
        Instruction::Call { dst: Some(d), func: 9, args } => {
            assert_eq!(d.0, 2);
            assert_eq!(args.iter().map(|r| r.0).collect::<Vec<_>>(), vec![0, 1]);
        }
        other => panic!("not a call: {other:?}"),
    }
}

#[test]
fn continue_outside_a_loop_fails() {
    let r = compile_function(&function(0, block(vec![HIRExpression::Continue])));
    assert!(matches!(r, Err(IRCompileError::IllegalContinue)));
}

#[test]
fn break_outside_a_loop_fails() {
    let r = compile_function(&function(0, block(vec![HIRExpression::Break(None)])));
    assert!(matches!(r, Err(IRCompileError::IllegalBreak)));
}

#[test]
fn module_compiles_each_function_in_order() {
    let mut module = HIRModule::new();
    module.add_function(FunctionId { id: FunctionType::UserDefined(3) }, function(0, block(vec![int_const(1)])));
    module.add_function(FunctionId { id: FunctionType::UserDefined(4) }, function(2, block(vec![])));
    let fs = compile_module(&module).unwrap();
    assert_eq!(fs.len(), 2);
    assert_eq!(fs[0].0, FunctionId { id: FunctionType::UserDefined(3) });
    assert_eq!(fs[1].1.registers, 2);
    assert!(fs[1].1.code.is_empty());
}
