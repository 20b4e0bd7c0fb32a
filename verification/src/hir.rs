use crate::primitive::{BinaryOperator, ComparisonOperator, Integer, PrimitiveType, TypeView};
use vstd::prelude::*;

verus! {

/// Names a variable after name resolution.
#[derive(Debug, Clone, Copy, PartialEq, Eq, Hash)]
pub struct SymbolId(pub usize);

/// Names a type after name resolution.
#[derive(Debug, Clone, Copy, PartialEq, Eq, Hash)]
pub struct TypeId(pub usize);

/// Names a function after name resolution.
#[derive(Debug, Clone, Copy, PartialEq, Eq, Hash)]
pub struct FunctionId {
    pub id: FunctionType,
}

/// Whether a function was written by the user or is built into the machine.
#[derive(Debug, Clone, Copy, PartialEq, Eq, Hash)]
pub enum FunctionType {
    UserDefined(usize),
    BuiltIn(usize),
}

/// A constant that code loads. A floating-point number is held by its decimal text and its size
/// in bytes; the machine that runs the code reads the number from the text.
#[derive(Debug)]
pub enum Constant {
    Integer(Integer),
    Float { text: String, byte: u8 },
    Bool(bool),
    Pointer,
    Text(String),
}

/// The mathematical value of a constant: a text as its characters.
pub enum ConstantView {
    Integer(Integer),
    Float { text: Seq<char>, byte: u8 },
    Bool(bool),
    Pointer,
    Text(Seq<char>),
}

impl View for Constant {
    type V = ConstantView;

    open spec fn view(&self) -> ConstantView {
        match self {
            Constant::Integer(i) => ConstantView::Integer(*i),
            Constant::Float { text, byte } => ConstantView::Float { text: text@, byte: *byte },
            Constant::Bool(b) => ConstantView::Bool(*b),
            Constant::Pointer => ConstantView::Pointer,
            Constant::Text(s) => ConstantView::Text(s@),
        }
    }
}

impl Constant {
    /// A copy of the constant.
    pub fn duplicate(&self) -> (c: Self)
        ensures
            c@ == self@,
    {
        match self {
            Constant::Integer(i) => Constant::Integer(*i),
            Constant::Float { text, byte } => Constant::Float { text: text.clone(), byte: *byte },
            Constant::Bool(b) => Constant::Bool(*b),
            Constant::Pointer => Constant::Pointer,
            Constant::Text(s) => Constant::Text(s.clone()),
        }
    }
}

/// The functions and global variables of a program.
#[derive(Debug)]
pub struct HIRModule {
    pub functions: Vec<(FunctionId, HIRFunction)>,
    pub globals: Vec<HIRGlobal>,
}

impl HIRModule {
    /// A module without functions or globals.
    pub fn new() -> (m: Self)
        ensures
            m.functions@.len() == 0,
            m.globals@.len() == 0,
    {
        Self { functions: Vec::new(), globals: Vec::new() }
    }

    /// Adds a function under `id`, after the others.
    pub fn add_function(&mut self, id: FunctionId, function: HIRFunction)
        ensures
            final(self).functions@ == old(self).functions@.push((id, function)),
            final(self).globals@ == old(self).globals@,
    {
        self.functions.push((id, function));
    }

    /// Adds a global variable, after the others.
    pub fn add_global(&mut self, global: HIRGlobal)
        ensures
            final(self).globals@ == old(self).globals@.push(global),
            final(self).functions@ == old(self).functions@,
    {
        self.globals.push(global);
    }
}

/// A function: its parameters, each a variable and its type, the type it gives back, and its
/// body.
#[derive(Debug)]
pub struct HIRFunction {
    pub id: FunctionId,
    pub params: Vec<(SymbolId, PrimitiveType)>,
    pub return_type: PrimitiveType,
    pub body: HIRBlock,
}

/// A global variable, with its type and maybe an initial value.
#[derive(Debug)]
pub struct HIRGlobal {
    pub symbol: SymbolId,
    pub symbol_type: PrimitiveType,
    pub initializer: Option<HIRExpression>,
}

/// A statement: a new variable, or an expression.
#[derive(Debug)]
pub enum HIRStatement {
    Let { symbol: SymbolId, symbol_type: PrimitiveType, initializer: Option<HIRExpression> },
    Expr(HIRExpression),
}

/// Statements run one after another; the last gives the block's value.
#[derive(Debug)]
pub struct HIRBlock {
    pub statements: Vec<HIRStatement>,
}

/// An expression after desugaring: loops, conditions and calls in their plainest forms.
#[derive(Debug)]
pub enum HIRExpression {
    Literal(Constant),
    Variable { id: SymbolId, symbol_type: PrimitiveType },
    Store { target: SymbolId, value: Box<HIRExpression> },
    BinOp { op: BinaryOperator, lhs: Box<HIRExpression>, rhs: Box<HIRExpression> },
    CmpOp { op: ComparisonOperator, lhs: Box<HIRExpression>, rhs: Box<HIRExpression> },
    Call { function: SymbolId, args: Vec<HIRExpression> },
    If { cond: Box<HIRExpression>, then_block: HIRBlock, else_block: Option<HIRBlock> },
    Block(HIRBlock),
    Loop { body: HIRBlock },
    Continue,
    Break(Option<Box<HIRExpression>>),
    Return(Option<Box<HIRExpression>>),
}

impl HIRExpression {
    /// The expression as a statement.
    pub fn to_statement(self) -> (s: HIRStatement)
        ensures
            s == HIRStatement::Expr(self),
    {
        HIRStatement::Expr(self)
    }

    /// A block of the expression alone.
    pub fn to_block(self) -> (b: HIRBlock)
        ensures
            b.statements@ == seq![HIRStatement::Expr(self)],
    {
        HIRBlock { statements: vec![self.to_statement()] }
    }
}

/// The type of an expression's value as the HIR records it: the type of a variable, of the
/// left operand of an operation, of the value stored, returned or broken with, and of the last
/// statement of a block (the `then` block of an `if`). A literal, a call and `continue` have
/// `()`: the HIR does not record their types.
pub open spec fn hir_type(e: HIRExpression) -> TypeView
    decreases e,
{
    match e {
        HIRExpression::Store { value, .. } => hir_type(*value),
        HIRExpression::Variable { symbol_type, .. } => symbol_type@,
        HIRExpression::CmpOp { lhs, .. } => hir_type(*lhs),
        HIRExpression::BinOp { lhs, .. } => hir_type(*lhs),
        HIRExpression::Return(Some(x)) => hir_type(*x),
        HIRExpression::Break(Some(x)) => hir_type(*x),
        HIRExpression::Loop { body } => statements_type(body.statements@),
        HIRExpression::Block(b) => statements_type(b.statements@),
        HIRExpression::If { then_block, .. } => statements_type(then_block.statements@),
        _ => TypeView::Unit,
    }
}

/// The type of the last statement, or `()` without one.
pub open spec fn statements_type(s: Seq<HIRStatement>) -> TypeView
    decreases s,
{
    if s.len() == 0 {
        TypeView::Unit
    } else {
        match s[s.len() - 1] {
            HIRStatement::Let { .. } => TypeView::Unit,
            HIRStatement::Expr(x) => hir_type(x),
        }
    }
}

impl HIRExpression {
    /// The type of the expression's value; see `hir_type`.
    pub fn to_type(&self) -> (t: PrimitiveType)
        ensures
            t@ == hir_type(*self),
        decreases self,
    {
        match self {
            HIRExpression::Store { value, .. } => value.to_type(),
            HIRExpression::Variable { symbol_type, .. } => symbol_type.deep_clone(),
            HIRExpression::CmpOp { lhs, .. } => lhs.to_type(),
            HIRExpression::BinOp { lhs, .. } => lhs.to_type(),
            HIRExpression::Return(Some(x)) => x.to_type(),
            HIRExpression::Break(Some(x)) => x.to_type(),
            HIRExpression::Loop { body } => body.to_type(),
            HIRExpression::Block(b) => b.to_type(),
            HIRExpression::If { then_block, .. } => then_block.to_type(),
            _ => PrimitiveType::Unit,
        }
    }
}

impl HIRBlock {
    /// The type of the block's last statement, or `()`.
    pub fn to_type(&self) -> (t: PrimitiveType)
        ensures
            t@ == statements_type(self.statements@),
        decreases self,
    {
        let n = self.statements.len();
        if n == 0 {
            return PrimitiveType::Unit;
        }
        match &self.statements[n - 1] {
            HIRStatement::Let { .. } => PrimitiveType::Unit,
            HIRStatement::Expr(x) => x.to_type(),
        }
    }
}

} // verus!
