use crate::ast::{AssignOperator, Literal, LogicalOperator, Pattern, TypeKind};
use crate::cache::{Allocator, LinearAllocator};
use crate::hir::{
    hir_type, Constant, ConstantView, FunctionId, HIRBlock, HIRExpression, HIRFunction, HIRModule, HIRStatement,
    SymbolId,
};
use crate::primitive::{
    int_bounds, spec_parse_integer, BinaryOperator, ComparisonOperator, Integer, PrimitiveType, TypeView,
};
use crate::lexer::token::Symbol;
use crate::parser::lexer::{binary_of, trinary_of, unary_of};
use crate::parser::token::MusubuOperator;
use vstd::prelude::*;

verus! {

/// Why a construct could not be lowered to simpler ones.
#[derive(Debug, Clone, Copy, PartialEq, Eq)]
pub enum DesugarError {
    UnsupportedAssignTarget,
    NotFunction,
    TypeMissMatch,
}

pub type DesugarResult<T> = Result<T, DesugarError>;

/// The arithmetic operator that a compound assignment applies; none for `=`.
pub open spec fn assign_arith(op: AssignOperator) -> Option<BinaryOperator> {
    match op {
        AssignOperator::Assign => None,
        AssignOperator::AddAssign => Some(BinaryOperator::Addition),
        AssignOperator::SubAssign => Some(BinaryOperator::Subtract),
        AssignOperator::MulAssign => Some(BinaryOperator::Multiply),
        AssignOperator::DivAssign => Some(BinaryOperator::Divide),
        AssignOperator::ModAssign => Some(BinaryOperator::Modulo),
        AssignOperator::AndAssign => Some(BinaryOperator::And),
        AssignOperator::OrAssign => Some(BinaryOperator::Or),
        AssignOperator::XorAssign => Some(BinaryOperator::Xor),
        AssignOperator::LeftShiftAssign => Some(BinaryOperator::LeftShift),
        AssignOperator::RightShiftAssign => Some(BinaryOperator::RightShift),
    }
}

/// A literal that lowers to a constant: an integer whose text is a value of its integer type,
/// a floating-point number of 4 or 8 bytes, a string or a boolean. Characters do not lower.
pub open spec fn lowerable_literal(l: Literal) -> bool {
    match l {
        Literal::Integer { value, value_type } => match value_type {
            TypeKind::Primitive(PrimitiveType::Integer { signed, byte }) => match int_bounds(signed, byte) {
                Some((min, max)) => spec_parse_integer(value@, signed, min, max) is Some,
                None => false,
            },
            _ => false,
        },
        Literal::Float { value_type, .. } => value_type matches TypeKind::Primitive(PrimitiveType::Float { byte })
            && (byte == 4 || byte == 8),
        Literal::String { .. } => true,
        Literal::Bool(_) => true,
        _ => false,
    }
}

/// The constant of a literal: an integer by its value and type, a floating-point number by its
/// text and size, a string by its text, a boolean as it is.
pub open spec fn literal_constant(l: Literal, c: ConstantView) -> bool {
    match l {
        Literal::Integer { value, value_type } => match value_type {
            TypeKind::Primitive(PrimitiveType::Integer { signed, byte }) => match int_bounds(signed, byte) {
                Some((min, max)) => c matches ConstantView::Integer(x) && Some(x.value()) == spec_parse_integer(
                    value@,
                    signed,
                    min,
                    max,
                ) && x.kind() == (signed, byte),
                None => false,
            },
            _ => false,
        },
        Literal::Float { value, value_type } => match value_type {
            TypeKind::Primitive(PrimitiveType::Float { byte }) => c == ConstantView::Float { text: value@, byte },
            _ => false,
        },
        Literal::String { value, .. } => c == ConstantView::Text(value@),
        Literal::Bool(b) => c == ConstantView::Bool(b),
        _ => false,
    }
}

/// A block of the one boolean constant `v`.
pub open spec fn bool_block(b: HIRBlock, v: bool) -> bool {
    b.statements@.len() == 1 && match b.statements@[0] {
        HIRStatement::Expr(HIRExpression::Literal(c)) => c@ == ConstantView::Bool(v),
        _ => false,
    }
}

/// Lowers resolved syntax to the HIR: it numbers variables, numbers functions by name, and
/// collects the lowered functions into a module.
pub struct Desugar {
    next_symbol: usize,
    root_module: HIRModule,
    function_allocator: LinearAllocator,
}

impl Desugar {
    /// The number that the next variable gets.
    pub closed spec fn next_symbol(&self) -> nat {
        self.next_symbol as nat
    }

    /// The module collected so far.
    pub closed spec fn module(&self) -> HIRModule {
        self.root_module
    }

    /// The numbers given to function names so far.
    pub closed spec fn function_numbers(&self) -> Map<Seq<char>, usize> {
        self.function_allocator.numbers()
    }

    pub closed spec fn function_next(&self) -> nat {
        self.function_allocator.next()
    }

    pub closed spec fn wf(&self) -> bool {
        self.function_allocator.wf()
    }

    /// Starts lowering into `module`, numbering functions with `allocator`.
    pub fn new(module: HIRModule, allocator: LinearAllocator) -> (d: Self)
        requires
            allocator.wf(),
        ensures
            d.next_symbol() == 0,
            d.module() == module,
            d.function_numbers() == allocator.numbers(),
            d.function_next() == allocator.next(),
            d.wf(),
    {
        Self { next_symbol: 0, root_module: module, function_allocator: allocator }
    }

    /// Gives back the module and the allocator.
    pub fn finish(self) -> (r: (HIRModule, LinearAllocator))
        ensures
            r.0 == self.module(),
            r.1.numbers() == self.function_numbers(),
            r.1.next() == self.function_next(),
            self.wf() ==> r.1.wf(),
    {
        (self.root_module, self.function_allocator)
    }

    /// The number of the function `name`: the one it got when first seen, or the next one.
    pub fn alloc_function(&mut self, name: String) -> (id: usize)
        requires
            old(self).wf(),
        ensures
            final(self).wf(),
            old(self).function_numbers().contains_key(name@) ==> id == old(self).function_numbers()[name@]
                && final(self).function_numbers() == old(self).function_numbers()
                && final(self).function_next() == old(self).function_next(),
            !old(self).function_numbers().contains_key(name@) ==> id == old(self).function_next()
                && final(self).function_numbers() == old(self).function_numbers().insert(name@, id)
                && final(self).function_next() == old(self).function_next() + 1,
            final(self).next_symbol() == old(self).next_symbol(),
            final(self).module() == old(self).module(),
    {
        self.function_allocator.allocate(name)
    }

    /// Adds a lowered function to the module under `id`.
    pub fn add_function_to_module(&mut self, id: FunctionId, function: HIRFunction)
        ensures
            final(self).module().functions@ == old(self).module().functions@.push((id, function)),
            final(self).module().globals@ == old(self).module().globals@,
            final(self).next_symbol() == old(self).next_symbol(),
            final(self).function_numbers() == old(self).function_numbers(),
            final(self).function_next() == old(self).function_next(),
            final(self).wf() == old(self).wf(),
    {
        self.root_module.add_function(id, function);
    }

    /// A new variable number.
    pub fn alloc_symbol(&mut self) -> (id: usize)
        requires
            old(self).next_symbol() < usize::MAX,
        ensures
            id == old(self).next_symbol(),
            final(self).next_symbol() == old(self).next_symbol() + 1,
            final(self).module() == old(self).module(),
            final(self).function_numbers() == old(self).function_numbers(),
            final(self).function_next() == old(self).function_next(),
            final(self).wf() == old(self).wf(),
    {
        let id = self.next_symbol;
        self.next_symbol = self.next_symbol + 1;
        id
    }

    /// A function with its parameters, result type and body.
    pub fn lower_function(
        &mut self,
        id: FunctionId,
        params: Vec<(SymbolId, PrimitiveType)>,
        return_type: PrimitiveType,
        body: HIRBlock,
    ) -> (res: DesugarResult<HIRFunction>)
        ensures
            *final(self) == *old(self),
            res == Ok::<HIRFunction, DesugarError>(HIRFunction { id, params, return_type, body }),
    {
        Ok(HIRFunction { id, params, return_type, body })
    }

    /// A reference to the function `id`, as a call without arguments yet.
    pub fn lower_function_symbol(&self, id: usize) -> (res: DesugarResult<HIRExpression>)
        ensures
            res matches Ok(HIRExpression::Call { function, args }) && function == SymbolId(id) && args@.len() == 0,
    {
        Ok(HIRExpression::Call { function: SymbolId(id), args: Vec::new() })
    }

    /// A reference to the variable `id`.
    pub fn lower_symbol(&mut self, id: usize, symbol_type: PrimitiveType) -> (res: DesugarResult<HIRExpression>)
        ensures
            *final(self) == *old(self),
            res == Ok::<HIRExpression, DesugarError>(HIRExpression::Variable { id: SymbolId(id), symbol_type }),
    {
        Ok(HIRExpression::Variable { id: SymbolId(id), symbol_type })
    }

    pub fn lower_block(&mut self, body: Vec<HIRStatement>) -> (res: DesugarResult<HIRBlock>)
        ensures
            *final(self) == *old(self),
            res == Ok::<HIRBlock, DesugarError>(HIRBlock { statements: body }),
    {
        Ok(HIRBlock { statements: body })
    }

    pub fn lower_continue(&mut self) -> (res: DesugarResult<HIRExpression>)
        ensures
            *final(self) == *old(self),
            res == Ok::<HIRExpression, DesugarError>(HIRExpression::Continue),
    {
        Ok(HIRExpression::Continue)
    }

    pub fn lower_break(&mut self, expr: Option<HIRExpression>) -> (res: DesugarResult<HIRExpression>)
        ensures
            *final(self) == *old(self),
            res == Ok::<HIRExpression, DesugarError>(HIRExpression::Break(
                match expr {
                    Some(e) => Some(Box::new(e)),
                    None => None,
                },
            )),
    {
        let boxed = match expr {
            Some(e) => Some(Box::new(e)),
            None => None,
        };
        Ok(HIRExpression::Break(boxed))
    }

    pub fn lower_return(&mut self, expr: Option<HIRExpression>) -> (res: DesugarResult<HIRExpression>)
        ensures
            *final(self) == *old(self),
            res == Ok::<HIRExpression, DesugarError>(HIRExpression::Return(
                match expr {
                    Some(e) => Some(Box::new(e)),
                    None => None,
                },
            )),
    {
        let boxed = match expr {
            Some(e) => Some(Box::new(e)),
            None => None,
        };
        Ok(HIRExpression::Return(boxed))
    }

    /// `let NAME = initializer;` gives a new variable of the initializer's type (`()` without
    /// one); other patterns give no statement.
    pub fn lower_let_statement(&mut self, pattern: &Pattern, initializer: Option<HIRExpression>) -> (res:
        DesugarResult<Option<HIRStatement>>)
        requires
            old(self).next_symbol() < usize::MAX,
        ensures
            final(self).module() == old(self).module(),
            final(self).function_numbers() == old(self).function_numbers(),
            final(self).function_next() == old(self).function_next(),
            final(self).wf() == old(self).wf(),
            !(*pattern is Identifier) ==> res == Ok::<Option<HIRStatement>, DesugarError>(None)
                && final(self).next_symbol() == old(self).next_symbol(),
            *pattern is Identifier ==> final(self).next_symbol() == old(self).next_symbol() + 1,
            *pattern is Identifier ==> (res matches Ok(Some(HIRStatement::Let { symbol, symbol_type, initializer: init }))
                && symbol == SymbolId(old(self).next_symbol() as usize) && init == initializer && symbol_type@ == match initializer {
                Some(e) => hir_type(e),
                None => TypeView::Unit,
            }),
    {
        let Pattern::Identifier { .. } = pattern else {
            return Ok(None);
        };
        let symbol = self.alloc_symbol();
        let symbol_type = match &initializer {
            Some(e) => e.to_type(),
            None => PrimitiveType::Unit,
        };
        Ok(Some(HIRStatement::Let { symbol: SymbolId(symbol), symbol_type, initializer }))
    }

    /// An arithmetic operation as it is.
    pub fn lower_binary_operator(&mut self, operator: BinaryOperator, lhs: HIRExpression, rhs: HIRExpression) -> (res:
        DesugarResult<HIRExpression>)
        ensures
            *final(self) == *old(self),
            res == Ok::<HIRExpression, DesugarError>(
                HIRExpression::BinOp { op: operator, lhs: Box::new(lhs), rhs: Box::new(rhs) },
            ),
    {
        Ok(HIRExpression::BinOp { op: operator, lhs: Box::new(lhs), rhs: Box::new(rhs) })
    }

    /// `a = b` stores `b` into the variable `a`; `a += b` and the like store `a + b`. Only a
    /// variable can be assigned to.
    pub fn lower_assign_operator(&mut self, operator: AssignOperator, lhs: HIRExpression, rhs: HIRExpression) -> (res:
        DesugarResult<HIRExpression>)
        ensures
            *final(self) == *old(self),
            !(lhs is Variable) ==> res == Err::<HIRExpression, DesugarError>(DesugarError::UnsupportedAssignTarget),
            lhs matches HIRExpression::Variable { id, .. } ==> res == Ok::<HIRExpression, DesugarError>(
                HIRExpression::Store {
                    target: id,
                    value: Box::new(
                        match assign_arith(operator) {
                            None => rhs,
                            Some(op) => HIRExpression::BinOp { op, lhs: Box::new(lhs), rhs: Box::new(rhs) },
                        },
                    ),
                },
            ),
    {
        let target = match &lhs {
            HIRExpression::Variable { id, symbol_type: _ } => *id,
            _ => return Err(DesugarError::UnsupportedAssignTarget),
        };
        let operator = match operator {
            AssignOperator::AddAssign => BinaryOperator::Addition,
            AssignOperator::SubAssign => BinaryOperator::Subtract,
            AssignOperator::MulAssign => BinaryOperator::Multiply,
            AssignOperator::DivAssign => BinaryOperator::Divide,
            AssignOperator::ModAssign => BinaryOperator::Modulo,
            AssignOperator::AndAssign => BinaryOperator::And,
            AssignOperator::OrAssign => BinaryOperator::Or,
            AssignOperator::XorAssign => BinaryOperator::Xor,
            AssignOperator::LeftShiftAssign => BinaryOperator::LeftShift,
            AssignOperator::RightShiftAssign => BinaryOperator::RightShift,
            AssignOperator::Assign => {
                return Ok(HIRExpression::Store { target, value: Box::new(rhs) });
            },
        };
        let value = match self.lower_binary_operator(operator, lhs, rhs) {
            Ok(v) => v,
            Err(e) => return Err(e),
        };
        Ok(HIRExpression::Store { target, value: Box::new(value) })
    }

    /// A comparison as it is.
    pub fn lower_comparison_operator(&mut self, operator: ComparisonOperator, lhs: HIRExpression, rhs: HIRExpression) -> (res:
        DesugarResult<HIRExpression>)
        ensures
            *final(self) == *old(self),
            res == Ok::<HIRExpression, DesugarError>(
                HIRExpression::CmpOp { op: operator, lhs: Box::new(lhs), rhs: Box::new(rhs) },
            ),
    {
        Ok(HIRExpression::CmpOp { op: operator, lhs: Box::new(lhs), rhs: Box::new(rhs) })
    }

    /// `a || b` becomes `if a { true } else { b }`, and `a && b` becomes `if a { b } else { false }`.
    /// `!` has no two operands and is not lowered here.
    pub fn lower_logical_operator(&mut self, operator: LogicalOperator, lhs: HIRExpression, rhs: HIRExpression) -> (res:
        DesugarResult<HIRExpression>)
        requires
            !(operator is Not),
        ensures
            *final(self) == *old(self),
            operator is Or ==> match res {
                Ok(HIRExpression::If { cond, then_block, else_block: Some(eb) }) => *cond == lhs && bool_block(
                    then_block,
                    true,
                ) && eb.statements@ == seq![HIRStatement::Expr(rhs)],
                _ => false,
            },
            operator is And ==> match res {
                Ok(HIRExpression::If { cond, then_block, else_block: Some(eb) }) => *cond == lhs
                    && then_block.statements@ == seq![HIRStatement::Expr(rhs)] && bool_block(eb, false),
                _ => false,
            },
    {
        match operator {
            LogicalOperator::Or => {
                let then_body = HIRExpression::Literal(Constant::Bool(true)).to_block();
                let else_body = rhs.to_block();
                self.lower_if_statement(lhs, then_body, Some(else_body))
            },
            LogicalOperator::And => {
                let then_body = rhs.to_block();
                let else_body = HIRExpression::Literal(Constant::Bool(false)).to_block();
                self.lower_if_statement(lhs, then_body, Some(else_body))
            },
            LogicalOperator::Not => vstd::pervasive::unreached(),
        }
    }

    /// A call of `function` with `arguments`: a call that has none yet takes them; a variable of
    /// a function type is called; anything else is no function.
    pub fn lower_call(&mut self, function: HIRExpression, arguments: Vec<HIRExpression>) -> (res: DesugarResult<
        HIRExpression,
    >)
        ensures
            *final(self) == *old(self),
            function matches HIRExpression::Call { function: f, .. } ==> res == Ok::<HIRExpression, DesugarError>(
                HIRExpression::Call { function: f, args: arguments },
            ),
            function matches HIRExpression::Variable { id, symbol_type } ==> if symbol_type is Function {
                res == Ok::<HIRExpression, DesugarError>(HIRExpression::Call { function: id, args: arguments })
            } else {
                res == Err::<HIRExpression, DesugarError>(DesugarError::NotFunction)
            },
            !(function is Call || function is Variable) ==> res == Err::<HIRExpression, DesugarError>(
                DesugarError::NotFunction,
            ),
    {
        match function {
            HIRExpression::Call { function, args: _ } => Ok(HIRExpression::Call { function, args: arguments }),
            HIRExpression::Variable { id, symbol_type } => {
                if let PrimitiveType::Function { .. } = symbol_type {
                    Ok(HIRExpression::Call { function: id, args: arguments })
                } else {
                    Err(DesugarError::NotFunction)
                }
            },
            _ => Err(DesugarError::NotFunction),
        }
    }

    /// An array is not lowered yet; it stands as `continue`.
    pub fn lower_array(&mut self) -> (res: DesugarResult<HIRExpression>)
        ensures
            res == Ok::<HIRExpression, DesugarError>(HIRExpression::Continue),
    {
        Ok(HIRExpression::Continue)
    }

    pub fn lower_if_statement(&mut self, condition: HIRExpression, then_body: HIRBlock, else_body: Option<HIRBlock>) -> (res:
        DesugarResult<HIRExpression>)
        ensures
            *final(self) == *old(self),
            res == Ok::<HIRExpression, DesugarError>(
                HIRExpression::If { cond: Box::new(condition), then_block: then_body, else_block: else_body },
            ),
    {
        Ok(HIRExpression::If { cond: Box::new(condition), then_block: then_body, else_block: else_body })
    }

    pub fn lower_loop(&mut self, body: HIRBlock) -> (res: DesugarResult<HIRExpression>)
        ensures
            *final(self) == *old(self),
            res == Ok::<HIRExpression, DesugarError>(HIRExpression::Loop { body }),
    {
        Ok(HIRExpression::Loop { body })
    }

    /// `while c { body }` becomes `loop { if c { body } else { break } }`.
    pub fn lower_while(&mut self, condition: HIRExpression, body: HIRBlock) -> (res: DesugarResult<HIRExpression>)
        ensures
            *final(self) == *old(self),
            match res {
                Ok(HIRExpression::Loop { body: lb }) => lb.statements@.len() == 1 && match lb.statements@[0] {
                    HIRStatement::Expr(HIRExpression::If { cond, then_block, else_block: Some(eb) }) => *cond == condition
                        && then_block == body && eb.statements@ == seq![HIRStatement::Expr(HIRExpression::Break(None))],
                    _ => false,
                },
                _ => false,
            },
    {
        let else_body = HIRExpression::Break(None).to_block();
        let if_expr = match self.lower_if_statement(condition, body, Some(else_body)) {
            Ok(e) => e,
            Err(e) => return Err(e),
        };
        Ok(HIRExpression::Loop { body: if_expr.to_block() })
    }

    /// A literal as a constant; see `literal_constant`.
    pub fn lower_literal(&mut self, literal: &Literal) -> (res: DesugarResult<HIRExpression>)
        requires
            lowerable_literal(*literal),
        ensures
            *final(self) == *old(self),
            res matches Ok(HIRExpression::Literal(c)) && literal_constant(*literal, c@),
    {
        let value = match literal {
            Literal::Integer { value, value_type } => match value_type {
                TypeKind::Primitive(ty) => match Integer::new(value.as_str(), ty) {
                    Some(i) => Constant::Integer(i),
                    None => vstd::pervasive::unreached(),
                },
                _ => vstd::pervasive::unreached(),
            },
            Literal::Float { value, value_type } => match value_type {
                TypeKind::Primitive(PrimitiveType::Float { byte }) => Constant::Float { text: value.clone(), byte: *byte },
                _ => vstd::pervasive::unreached(),
            },
            Literal::Bool(b) => Constant::Bool(*b),
            Literal::String { value, .. } => Constant::Text(value.clone()),
            _ => vstd::pervasive::unreached(),
        };
        Ok(HIRExpression::Literal(value))
    }
}

/// A compound assignment applies the operator that its spelling starts with: where a symbol
/// alone is an arithmetic or bit operator, the symbol followed by `=` is a compound
/// assignment, and lowering it stores the result of that same operator; and every compound
/// assignment of two symbols is spelled so. The shift assignments `<<=` and `>>=` shift left
/// and right.
pub proof fn law_compound_assignment_operator(s: Symbol)
    ensures
        unary_of(s) matches Some(MusubuOperator::Binary(b)) ==> (binary_of(s, Symbol::Equal) matches Some(
            MusubuOperator::Assign(a),
        ) && assign_arith(a) == Some(b)),
        binary_of(s, Symbol::Equal) matches Some(MusubuOperator::Assign(a)) ==> (assign_arith(a) matches Some(b)
            && unary_of(s) == Some(MusubuOperator::Binary(b))),
        trinary_of(Symbol::LessThan, Symbol::LessThan, Symbol::Equal) matches Some(MusubuOperator::Assign(a)) && assign_arith(a)
            == Some(BinaryOperator::LeftShift),
        trinary_of(Symbol::GreaterThan, Symbol::GreaterThan, Symbol::Equal) matches Some(MusubuOperator::Assign(a))
            && assign_arith(a) == Some(BinaryOperator::RightShift),
{
}

} // verus!
