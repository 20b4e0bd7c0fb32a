use crate::hir::{Constant, ConstantView};
use crate::primitive::{BinaryOperator, ComparisonOperator};
use vstd::prelude::*;

verus! {

/// A register of the virtual machine, by its number.
#[derive(Debug, Clone, Copy)]
pub struct Register(pub usize);

/// The functions that the machine provides itself.
#[derive(Debug, Clone, Copy)]
pub enum BuiltIn {
    MakeMatrix4,
}

/// The code of a function and how many registers it needs.
#[derive(Debug)]
pub struct CompiledFunction {
    pub code: Vec<Instruction>,
    pub registers: usize,
}

/// The mathematical value of a compiled function.
pub struct FunctionView {
    pub code: Seq<InstrView>,
    pub registers: usize,
}

impl View for CompiledFunction {
    type V = FunctionView;

    open spec fn view(&self) -> FunctionView {
        FunctionView { code: code_view(self.code@), registers: self.registers }
    }
}

/// One instruction of the virtual machine. Jump targets are indices into the code.
#[derive(Debug)]
pub enum Instruction {
    LoadConst { dst: Register, value: Constant },
    Move { dst: Register, src: Register },
    BinOp { dst: Register, op: BinaryOperator, lhs: Register, rhs: Register },
    Cmp { dst: Register, op: ComparisonOperator, lhs: Register, rhs: Register },
    JumpIfFalse { cond: Register, target: usize },
    Jump { target: usize },
    Call { dst: Option<Register>, func: usize, args: Vec<Register> },
    Return { value: Option<Register> },
    BuiltInCall { dst: Option<Register>, func: usize, args: Vec<Register> },
}

/// The mathematical value of an instruction: registers by their numbers, lists as sequences.
pub enum InstrView {
    LoadConst { dst: usize, value: ConstantView },
    Move { dst: usize, src: usize },
    BinOp { dst: usize, op: BinaryOperator, lhs: usize, rhs: usize },
    Cmp { dst: usize, op: ComparisonOperator, lhs: usize, rhs: usize },
    JumpIfFalse { cond: usize, target: usize },
    Jump { target: usize },
    Call { dst: Option<usize>, func: usize, args: Seq<usize> },
    Return { value: Option<usize> },
    BuiltInCall { dst: Option<usize>, func: usize, args: Seq<usize> },
}

pub open spec fn reg_numbers(s: Seq<Register>) -> Seq<usize> {
    s.map_values(|r: Register| r.0)
}

pub open spec fn opt_reg(r: Option<Register>) -> Option<usize> {
    match r {
        Some(x) => Some(x.0),
        None => None,
    }
}

impl View for Instruction {
    type V = InstrView;

    open spec fn view(&self) -> InstrView {
        match self {
            Instruction::LoadConst { dst, value } => InstrView::LoadConst { dst: dst.0, value: value@ },
            Instruction::Move { dst, src } => InstrView::Move { dst: dst.0, src: src.0 },
            Instruction::BinOp { dst, op, lhs, rhs } => InstrView::BinOp { dst: dst.0, op: *op, lhs: lhs.0, rhs: rhs.0 },
            Instruction::Cmp { dst, op, lhs, rhs } => InstrView::Cmp { dst: dst.0, op: *op, lhs: lhs.0, rhs: rhs.0 },
            Instruction::JumpIfFalse { cond, target } => InstrView::JumpIfFalse { cond: cond.0, target: *target },
            Instruction::Jump { target } => InstrView::Jump { target: *target },
            Instruction::Call { dst, func, args } => InstrView::Call {
                dst: opt_reg(*dst),
                func: *func,
                args: reg_numbers(args@),
            },
            Instruction::Return { value } => InstrView::Return { value: opt_reg(*value) },
            Instruction::BuiltInCall { dst, func, args } => InstrView::BuiltInCall {
                dst: opt_reg(*dst),
                func: *func,
                args: reg_numbers(args@),
            },
        }
    }
}

/// The instructions of a code sequence by their values.
pub open spec fn code_view(code: Seq<Instruction>) -> Seq<InstrView> {
    code.map_values(|i: Instruction| i@)
}

/// The value of a comparison or an arithmetic instruction keeps its registers in place: the
/// left input as the left one, the right input as the right one.
pub proof fn law_instruction_operands(dst: Register, op: ComparisonOperator, b: BinaryOperator, l: Register, r: Register)
    ensures
        (Instruction::Cmp { dst, op, lhs: l, rhs: r })@ matches InstrView::Cmp { dst: d, lhs: x, rhs: y, .. } && d == dst.0
            && x == l.0 && y == r.0,
        (Instruction::BinOp { dst, op: b, lhs: l, rhs: r })@ matches InstrView::BinOp { dst: d, lhs: x, rhs: y, .. } && d
            == dst.0 && x == l.0 && y == r.0,
{
}

} // verus!
