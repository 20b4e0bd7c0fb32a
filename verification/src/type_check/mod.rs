pub mod errors;
pub mod operator_names;

use self::errors::TypeCheckError;
use self::operator_names::{assign_operator_name, binary_operator_name, comparison_operator_name, logical_operator_name};
use crate::ast::{AssignOperator, Literal, LogicalOperator, Path, PathSegment, Pattern, TypeKind};
use crate::span::Spanned;
use crate::primitive::{printed_name, types_view, BinaryOperator, ComparisonOperator, PrimitiveType, TypeView};
use crate::scope::errors::ScopeError;
use crate::scope::{added, Scope, ScopeControl, ScopeResult, ScopeView, SymbolStore, SymbolView, TypeOption, TypeRequirementView, TypeSymbol, TypeSymbolView, type_symbol_debug};
use crate::desugar::assign_arith;
use vstd::prelude::*;

verus! {

broadcast use vstd::string::group_string_axioms;

pub type TypeCheckResult<T> = Result<T, TypeCheckError>;

/// Checks the types of operations and statements, and follows which type the
/// enclosing blocks and functions give back.
#[derive(Debug)]
pub struct TypeChecker {
    scope_return_stack: Vec<TypeSymbol>,
    function_return_stack: Vec<TypeSymbol>,
}

/// The return types that a type checker follows, innermost last.
pub struct TypeCheckerView {
    pub scope_returns: Seq<TypeSymbolView>,
    pub function_returns: Seq<TypeSymbolView>,
}

pub open spec fn symbols_view(s: Seq<TypeSymbol>) -> Seq<TypeSymbolView> {
    s.map_values(|t: TypeSymbol| t@)
}

impl View for TypeChecker {
    type V = TypeCheckerView;

    closed spec fn view(&self) -> TypeCheckerView {
        TypeCheckerView {
            scope_returns: symbols_view(self.scope_return_stack@),
            function_returns: symbols_view(self.function_return_stack@),
        }
    }
}

/// Both operands have the same type, by value or both by reference, and are not pointers.
pub open spec fn operands_agree(lhs: TypeSymbolView, rhs: TypeSymbolView) -> bool {
    lhs.same_type(rhs) && !(lhs.type_kind is Pointer)
}

/// The error for operands that do not agree.
pub open spec fn is_operand_mismatch(e: TypeCheckError, lhs: TypeSymbolView, rhs: TypeSymbolView) -> bool {
    e matches TypeCheckError::TypeMismatch { expected, found } && expected@ == lhs.type_kind && found@ == rhs.type_kind
}

/// The four arithmetic operators.
pub open spec fn is_arithmetic(op: BinaryOperator) -> bool {
    match op {
        BinaryOperator::Addition | BinaryOperator::Subtract | BinaryOperator::Multiply | BinaryOperator::Divide => true,
        _ => false,
    }
}

/// Arithmetic needs a number; the remainder, bit and shift operators need an integer.
pub open spec fn binary_allows(op: BinaryOperator, t: TypeView) -> bool {
    if is_arithmetic(op) {
        t.is_scalar()
    } else {
        t is Integer
    }
}

/// Plain and arithmetic assignment need a number; the others need an integer.
pub open spec fn assign_allows(op: AssignOperator, t: TypeView) -> bool {
    match op {
        AssignOperator::Assign | AssignOperator::AddAssign | AssignOperator::SubAssign | AssignOperator::MulAssign
        | AssignOperator::DivAssign => t.is_scalar(),
        _ => t is Integer,
    }
}

/// Equality needs an integer; ordering needs a number.
pub open spec fn comparison_allows(op: ComparisonOperator, t: TypeView) -> bool {
    match op {
        ComparisonOperator::Equal | ComparisonOperator::NotEqual => t is Integer,
        _ => t.is_scalar(),
    }
}

/// The error for an operator that does not apply to its operands.
pub open spec fn is_invalid_operation(e: TypeCheckError, op: Seq<char>, reason: Seq<char>) -> bool {
    e matches TypeCheckError::InvalidOperation { op: o, reason: r } && o@ == op && r@ == reason
}

/// The type that a written type stands for in `scope`, or the first name in it,
/// from left to right, that is no known type there.
pub open spec fn checked_type(scope: ScopeView, t: TypeKind) -> Result<TypeSymbolView, Seq<char>>
    decreases t,
{
    match t {
        TypeKind::Primitive(p) => Ok(TypeSymbolView { type_kind: p@, option: TypeOption::plain() }),
        TypeKind::Function { params, return_type } => match checked_type(scope, *return_type.node) {
            Err(n) => Err(n),
            Ok(r) => match checked_types(scope, params@) {
                Err(n) => Err(n),
                Ok(ps) => Ok(
                    TypeSymbolView {
                        type_kind: TypeView::Function { return_type: Box::new(r.type_kind), arguments: ps },
                        option: TypeOption::plain(),
                    },
                ),
            },
        },
        TypeKind::PathType(p) => checked_path(scope, *p.node),
    }
}

/// The types that a list of written types stands for, or the first unknown name.
pub open spec fn checked_types(scope: ScopeView, s: Seq<Spanned<TypeKind>>) -> Result<Seq<TypeView>, Seq<char>>
    decreases s,
{
    if s.len() == 0 {
        Ok(Seq::empty())
    } else {
        match checked_types(scope, s.drop_last()) {
            Err(n) => Err(n),
            Ok(v) => match checked_type(scope, s.last().node) {
                Err(n) => Err(n),
                Ok(t) => Ok(v.push(t.type_kind)),
            },
        }
    }
}

/// The first unknown name among the generic arguments of the segments.
pub open spec fn segments_error(scope: ScopeView, segments: Seq<Spanned<PathSegment>>) -> Option<Seq<char>>
    decreases segments,
{
    if segments.len() == 0 {
        None
    } else {
        match segments_error(scope, segments.drop_last()) {
            Some(n) => Some(n),
            None => match checked_types(scope, segments.last().node.arguments@) {
                Err(n) => Some(n),
                Ok(_) => None,
            },
        }
    }
}

/// The name of the last segment of a path, or the empty name.
pub open spec fn path_last_ident(p: Path) -> Seq<char> {
    if p.segments@.len() == 0 {
        ""@
    } else {
        p.segments@.last().node.ident@
    }
}

/// The type that a path names: its generic arguments must be known types, and its
/// last segment names the type.
pub open spec fn checked_path(scope: ScopeView, p: Path) -> Result<TypeSymbolView, Seq<char>>
    decreases p,
{
    match segments_error(scope, p.segments@) {
        Some(n) => Err(n),
        None => match scope.declared_type(path_last_ident(p)) {
            Some(t) => Ok(t),
            None => Err(path_last_ident(p)),
        },
    }
}

/// The written type of a literal.
pub open spec fn literal_type(l: Literal) -> TypeKind {
    match l {
        Literal::Float { value_type, .. } => value_type,
        Literal::Integer { value_type, .. } => value_type,
        Literal::Char { value_type, .. } => value_type,
        Literal::UnicodeChar { value_type, .. } => value_type,
        Literal::String { value_type, .. } => value_type,
        Literal::Bool(_) => TypeKind::Primitive(PrimitiveType::Boolean),
    }
}

pub open spec fn opt_symbol_view(t: Option<TypeSymbol>) -> Option<TypeSymbolView> {
    match t {
        Some(x) => Some(x@),
        None => None,
    }
}

/// The outcome of a check of a written type: the type, or an unknown type's name.
pub open spec fn type_result(res: TypeCheckResult<TypeSymbol>, r: Result<TypeSymbolView, Seq<char>>) -> bool {
    match r {
        Ok(t) => res matches Ok(x) && x@ == t,
        Err(n) => res matches Err(TypeCheckError::UnknownType { name }) && name@ == n,
    }
}

/// An unknown name among the first `i` types is the first unknown name of the list.
proof fn lemma_checked_types_prefix(scope: ScopeView, s: Seq<Spanned<TypeKind>>, i: int)
    requires
        0 <= i <= s.len(),
        checked_types(scope, s.take(i)) is Err,
    ensures
        checked_types(scope, s) == checked_types(scope, s.take(i)),
    decreases s.len() - i,
{
    if i < s.len() {
        assert(s.take(i + 1).drop_last() =~= s.take(i));
        lemma_checked_types_prefix(scope, s, i + 1);
    } else {
        assert(s.take(i) =~= s);
    }
}

/// An unknown name among the first `i` segments is the first unknown name of the path.
proof fn lemma_segments_error_prefix(scope: ScopeView, s: Seq<Spanned<PathSegment>>, i: int)
    requires
        0 <= i <= s.len(),
        segments_error(scope, s.take(i)) is Some,
    ensures
        segments_error(scope, s) == segments_error(scope, s.take(i)),
    decreases s.len() - i,
{
    if i < s.len() {
        assert(s.take(i + 1).drop_last() =~= s.take(i));
        lemma_segments_error_prefix(scope, s, i + 1);
    } else {
        assert(s.take(i) =~= s);
    }
}

/// Why a pattern does not fit the type bound to it.
pub enum PatternFailure {
    /// A name of the pattern is not in the scope.
    UnknownName(Seq<char>),
    /// The pattern has `expected` parts, the structure `found` elements.
    CountMismatch { expected: nat, found: nat },
}

/// A pattern that destructures can only be bound to a structure.
pub open spec fn pattern_fits_kind(pattern: Pattern, t: TypeView) -> bool {
    pattern is Multiply ==> t is Struct
}

/// Why `pattern` does not fit the type `t` in `scope`, if it does not.
pub open spec fn pattern_failure(scope: ScopeView, pattern: Pattern, t: TypeView) -> Option<PatternFailure> {
    match pattern {
        Pattern::Identifier { ident, .. } => if scope.symbols.contains_key(ident@) {
            None
        } else {
            Some(PatternFailure::UnknownName(ident@))
        },
        Pattern::Multiply(patterns) => match t {
            TypeView::Struct { elements } => if patterns@.len() != elements.len() {
                Some(PatternFailure::CountMismatch { expected: patterns@.len(), found: elements.len() })
            } else {
                None
            },
            _ => None,
        },
        _ => None,
    }
}

/// The error that reports `f`.
pub open spec fn is_pattern_error(e: TypeCheckError, f: PatternFailure) -> bool {
    match f {
        PatternFailure::UnknownName(n) => e matches TypeCheckError::UnknownPattern { name } && name@ == n,
        PatternFailure::CountMismatch { expected, found } => e matches TypeCheckError::TupleCountMismatch {
            expected: x,
            found: y,
        } && x == expected && y == found,
    }
}

/// The error for two types that should be the same.
pub open spec fn is_type_mismatch(e: TypeCheckError, expected: TypeView, found: TypeView) -> bool {
    e matches TypeCheckError::TypeMismatch { expected: x, found: y } && x@ == expected && y@ == found
}

/// The inputs of a `let` on which the pattern is bound to a type it can destructure.
pub open spec fn let_fits(pattern: Pattern, initializer: Option<TypeSymbolView>, variable_type: Option<TypeSymbolView>) -> bool {
    match (initializer, variable_type) {
        (Some(i), Some(v)) => i.same_type(v) ==> pattern_fits_kind(pattern, v.type_kind),
        (None, Some(v)) => pattern_fits_kind(pattern, v.type_kind),
        (Some(i), None) => pattern_fits_kind(pattern, i.type_kind),
        (None, None) => true,
    }
}

/// The outcome of binding `pattern` to `t`: the error that reports why it does not
/// fit, or `ok` when it fits.
pub open spec fn bound_result<T>(res: TypeCheckResult<T>, scope: ScopeView, pattern: Pattern, t: TypeView, ok: spec_fn(T) -> bool) -> bool {
    match pattern_failure(scope, pattern, t) {
        Some(f) => res matches Err(e) && is_pattern_error(e, f),
        None => res matches Ok(x) && ok(x),
    }
}

impl ScopeControl<TypeCheckError> for TypeChecker {
    /// Leaves the innermost block; there must be one.
    fn on_exit_scope(&mut self) -> (res: Result<(), TypeCheckError>)
        ensures
            old(self)@.scope_returns.len() == 0 ==> final(self)@ == old(self)@
                && res == Err::<(), TypeCheckError>(TypeCheckError::ScopeError(ScopeError::InvalidScope)),
            old(self)@.scope_returns.len() > 0 ==> res is Ok
                && final(self)@.scope_returns == old(self)@.scope_returns.drop_last()
                && final(self)@.function_returns == old(self)@.function_returns,
    {
        if self.scope_return_stack.pop().is_none() {
            return Err(TypeCheckError::ScopeError(ScopeError::InvalidScope));
        }
        proof {
            assert(self@.scope_returns =~= old(self)@.scope_returns.drop_last());
        }
        Ok(())
    }

    /// Enters a block that gives back `()` until told otherwise.
    fn on_enter_scope(&mut self) -> (res: Result<(), TypeCheckError>)
        ensures
            res is Ok,
            final(self)@.scope_returns == old(self)@.scope_returns.push(TypeSymbolView::unit()),
            final(self)@.function_returns == old(self)@.function_returns,
    {
        self.scope_return_stack.push(TypeSymbol::default());
        proof {
            assert(self@.scope_returns =~= old(self)@.scope_returns.push(TypeSymbolView::unit()));
        }
        Ok(())
    }
}

impl TypeChecker {
    /// A checker outside any block or function.
    pub fn new() -> (c: Self)
        ensures
            c@.scope_returns == Seq::<TypeSymbolView>::empty(),
            c@.function_returns == Seq::<TypeSymbolView>::empty(),
    {
        let c = Self { scope_return_stack: Vec::new(), function_return_stack: Vec::new() };
        proof {
            assert(c@.scope_returns =~= Seq::<TypeSymbolView>::empty());
            assert(c@.function_returns =~= Seq::<TypeSymbolView>::empty());
        }
        c
    }

    /// Enters a function that gives back `return_type`.
    pub fn enter_function(&mut self, return_type: TypeSymbol)
        ensures
            final(self)@.function_returns == old(self)@.function_returns.push(return_type@),
            final(self)@.scope_returns == old(self)@.scope_returns,
    {
        self.function_return_stack.push(return_type);
        proof {
            assert(self@.function_returns =~= old(self)@.function_returns.push(return_type@));
        }
    }

    /// Leaves the innermost function, if there is one.
    pub fn exit_function(&mut self)
        ensures
            final(self)@.function_returns == if old(self)@.function_returns.len() == 0 {
                old(self)@.function_returns
            } else {
                old(self)@.function_returns.drop_last()
            },
            final(self)@.scope_returns == old(self)@.scope_returns,
    {
        self.function_return_stack.pop();
        proof {
            if old(self)@.function_returns.len() > 0 {
                assert(self@.function_returns =~= old(self)@.function_returns.drop_last());
            }
        }
    }

    /// Sets the type that the innermost block gives back; there must be a block.
    pub fn set_scope_return_type(&mut self, return_type: TypeSymbol) -> (res: TypeCheckResult<()>)
        ensures
            old(self)@.scope_returns.len() == 0 ==> final(self)@ == old(self)@
                && res == Err::<(), TypeCheckError>(TypeCheckError::ScopeError(ScopeError::InvalidScope)),
            old(self)@.scope_returns.len() > 0 ==> res is Ok
                && final(self)@.scope_returns == old(self)@.scope_returns.drop_last().push(return_type@)
                && final(self)@.function_returns == old(self)@.function_returns,
    {
        if self.scope_return_stack.pop().is_none() {
            return Err(TypeCheckError::ScopeError(ScopeError::InvalidScope));
        }
        self.scope_return_stack.push(return_type);
        proof {
            assert(self@.scope_returns =~= old(self)@.scope_returns.drop_last().push(return_type@));
        }
        Ok(())
    }

    /// The operands of a binary operation must agree.
    fn validate_binary_operand(&self, lhs: &TypeSymbol, rhs: &TypeSymbol) -> (res: TypeCheckResult<()>)
        ensures
            operands_agree(lhs@, rhs@) ==> res is Ok,
            !operands_agree(lhs@, rhs@) ==> (res matches Err(e) && is_operand_mismatch(e, lhs@, rhs@)),
    {
        if !lhs.is_same_type(rhs) {
            return Err(TypeCheckError::TypeMismatch { expected: lhs.type_kind.clone(), found: rhs.type_kind.clone() });
        }
        if lhs.type_kind.is_pointer() {
            return Err(TypeCheckError::TypeMismatch { expected: lhs.type_kind.clone(), found: rhs.type_kind.clone() });
        }
        Ok(())
    }

    /// The type of `lhs operator rhs`: that of `lhs`.
    pub fn check_binary_operator(&self, operator: &BinaryOperator, lhs: TypeSymbol, rhs: TypeSymbol) -> (res: TypeCheckResult<TypeSymbol>)
        ensures
            !operands_agree(lhs@, rhs@) ==> (res matches Err(e) && is_operand_mismatch(e, lhs@, rhs@)),
            operands_agree(lhs@, rhs@) && binary_allows(*operator, lhs@.type_kind) ==> (res matches Ok(t) && t@ == lhs@),
            operands_agree(lhs@, rhs@) && !binary_allows(*operator, lhs@.type_kind) ==> (res matches Err(e)
                && is_invalid_operation(
                e,
                if is_arithmetic(*operator) {
                    binary_operator_name(*operator) + " lhs: "@ + type_symbol_debug(lhs@) + " rhs: "@ + type_symbol_debug(rhs@)
                } else {
                    binary_operator_name(*operator)
                },
                "unsupported binary operator"@,
            )),
    {
        self.validate_binary_operand(&lhs, &rhs)?;
        match operator {
            BinaryOperator::Addition | BinaryOperator::Subtract | BinaryOperator::Multiply | BinaryOperator::Divide => {
                if !lhs.type_kind.is_scalar_type() {
                    let mut op = String::from_str(operator.variant_name());
                    op.append(" lhs: ");
                    op.append(lhs.debug_text().as_str());
                    op.append(" rhs: ");
                    op.append(rhs.debug_text().as_str());
                    return Err(TypeCheckError::InvalidOperation { op, reason: "unsupported binary operator".to_string() });
                }
            },
            BinaryOperator::Modulo | BinaryOperator::And | BinaryOperator::Or | BinaryOperator::Xor
            | BinaryOperator::LeftShift | BinaryOperator::RightShift => {
                if !lhs.type_kind.is_integer() {
                    return Err(
                        TypeCheckError::InvalidOperation {
                            op: operator.variant_name().to_string(),
                            reason: "unsupported binary operator".to_string(),
                        },
                    );
                }
            },
        }
        Ok(lhs)
    }

    /// The type of `lhs operator rhs` for an assignment: that of `lhs`, which must be mutable.
    pub fn check_assign_operator(&self, operator: &AssignOperator, lhs: TypeSymbol, rhs: TypeSymbol) -> (res: TypeCheckResult<TypeSymbol>)
        ensures
            !operands_agree(lhs@, rhs@) ==> (res matches Err(e) && is_operand_mismatch(e, lhs@, rhs@)),
            operands_agree(lhs@, rhs@) && !lhs@.option.mutable ==> (res matches Err(TypeCheckError::NotMutable { name })
                && name@ == printed_name(lhs@.type_kind)),
            operands_agree(lhs@, rhs@) && lhs@.option.mutable && assign_allows(*operator, lhs@.type_kind) ==> (res matches Ok(t) && t@ == lhs@),
            operands_agree(lhs@, rhs@) && lhs@.option.mutable && !assign_allows(*operator, lhs@.type_kind) ==> (res matches Err(e)
                && is_invalid_operation(e, assign_operator_name(*operator), "unsupported assign operator"@)),
    {
        self.validate_binary_operand(&lhs, &rhs)?;
        if !lhs.is_mutable() {
            return Err(TypeCheckError::NotMutable { name: lhs.type_kind.to_string() });
        }
        let allowed = match operator {
            AssignOperator::Assign | AssignOperator::AddAssign | AssignOperator::SubAssign | AssignOperator::MulAssign
            | AssignOperator::DivAssign => lhs.type_kind.is_scalar_type(),
            AssignOperator::ModAssign | AssignOperator::AndAssign | AssignOperator::OrAssign | AssignOperator::XorAssign
            | AssignOperator::LeftShiftAssign | AssignOperator::RightShiftAssign => lhs.type_kind.is_integer(),
        };
        if !allowed {
            return Err(
                TypeCheckError::InvalidOperation {
                    op: operator.variant_name().to_string(),
                    reason: "unsupported assign operator".to_string(),
                },
            );
        }
        Ok(lhs)
    }

    /// The type of `lhs operator rhs` for a comparison: that of `lhs`.
    pub fn check_comparison_operator(&self, operator: &ComparisonOperator, lhs: TypeSymbol, rhs: TypeSymbol) -> (res: TypeCheckResult<TypeSymbol>)
        ensures
            !operands_agree(lhs@, rhs@) ==> (res matches Err(e) && is_operand_mismatch(e, lhs@, rhs@)),
            operands_agree(lhs@, rhs@) && comparison_allows(*operator, lhs@.type_kind) ==> (res matches Ok(t) && t@ == lhs@),
            operands_agree(lhs@, rhs@) && !comparison_allows(*operator, lhs@.type_kind) ==> (res matches Err(e)
                && is_invalid_operation(e, comparison_operator_name(*operator), "unsupported comparison operator"@)),
    {
        self.validate_binary_operand(&lhs, &rhs)?;
        let allowed = match operator {
            ComparisonOperator::Equal | ComparisonOperator::NotEqual => lhs.type_kind.is_integer(),
            ComparisonOperator::LessThan | ComparisonOperator::LessThanEqual | ComparisonOperator::GreaterThan
            | ComparisonOperator::GreaterThanEqual => lhs.type_kind.is_scalar_type(),
        };
        if !allowed {
            return Err(
                TypeCheckError::InvalidOperation {
                    op: operator.variant_name().to_string(),
                    reason: "unsupported comparison operator".to_string(),
                },
            );
        }
        Ok(lhs)
    }

    /// The type of `lhs operator rhs` for a logical operator: that of `lhs`, which must be `bool`.
    pub fn check_logical_operator(&self, operator: &LogicalOperator, lhs: TypeSymbol, rhs: TypeSymbol) -> (res: TypeCheckResult<TypeSymbol>)
        ensures
            !operands_agree(lhs@, rhs@) ==> (res matches Err(e) && is_operand_mismatch(e, lhs@, rhs@)),
            operands_agree(lhs@, rhs@) && lhs@.type_kind is Boolean ==> (res matches Ok(t) && t@ == lhs@),
            operands_agree(lhs@, rhs@) && !(lhs@.type_kind is Boolean) ==> (res matches Err(e)
                && is_invalid_operation(e, logical_operator_name(*operator), "unsupported logical operator"@)),
    {
        self.validate_binary_operand(&lhs, &rhs)?;
        if !lhs.type_kind.is_boolean() {
            return Err(
                TypeCheckError::InvalidOperation {
                    op: operator.variant_name().to_string(),
                    reason: "unsupported logical operator".to_string(),
                },
            );
        }
        Ok(lhs)
    }

    /// The types that the written types stand for, in order.
    fn check_types<'a>(&self, scope: &Scope<'a>, types: &Vec<Spanned<TypeKind>>) -> (res: TypeCheckResult<Vec<PrimitiveType>>)
        ensures
            match checked_types(scope@, types@) {
                Ok(ts) => res matches Ok(x) && types_view(x@) == ts,
                Err(n) => res matches Err(TypeCheckError::UnknownType { name }) && name@ == n,
            },
        decreases types,
    {
        let mut out: Vec<PrimitiveType> = Vec::new();
        let mut i: usize = 0;
        while i < types.len()
            invariant
                i <= types@.len(),
                checked_types(scope@, types@.take(i as int)) == Ok::<Seq<TypeView>, Seq<char>>(types_view(out@)),
            decreases types@.len() - i,
        {
            proof {
                assert(types@.take(i + 1).drop_last() =~= types@.take(i as int));
                assert(types@.take(i + 1).last() == types@[i as int]);
            }
            let t = match self.check_type(scope, &types[i].node) {
                Ok(t) => t,
                Err(e) => {
                    proof {
                        lemma_checked_types_prefix(scope@, types@, i as int + 1);
                    }
                    return Err(e);
                },
            };
            proof {
                assert(out@.push(t.type_kind).drop_last() =~= out@);
            }
            out.push(t.type_kind);
            i = i + 1;
        }
        proof {
            assert(types@.take(types@.len() as int) =~= types@);
        }
        Ok(out)
    }

    /// The type that a written type stands for in `scope`; a path must name a type there.
    pub fn check_type<'a>(&self, scope: &Scope<'a>, type_kind: &TypeKind) -> (res: TypeCheckResult<TypeSymbol>)
        ensures
            type_result(res, checked_type(scope@, *type_kind)),
        decreases type_kind,
    {
        let ty = match type_kind {
            TypeKind::Primitive(ty) => TypeSymbol::new(ty.clone()),
            TypeKind::Function { params, return_type } => {
                let return_type = self.check_type(scope, &return_type.node)?;
                let params = self.check_types(scope, params)?;
                TypeSymbol::new(PrimitiveType::Function { return_type: Box::new(return_type.type_kind), arguments: params })
            },
            TypeKind::PathType(path) => self.check_path(scope, &path.node)?,
        };
        Ok(ty)
    }

    /// The type that a path names in `scope`, after checking its generic arguments.
    pub fn check_path<'a>(&self, scope: &Scope<'a>, path: &Path) -> (res: TypeCheckResult<TypeSymbol>)
        ensures
            type_result(res, checked_path(scope@, *path)),
        decreases path,
    {
        let mut i: usize = 0;
        while i < path.segments.len()
            invariant
                i <= path.segments@.len(),
                segments_error(scope@, path.segments@.take(i as int)) is None,
            decreases path.segments@.len() - i,
        {
            proof {
                assert(path.segments@.take(i + 1).drop_last() =~= path.segments@.take(i as int));
                assert(path.segments@.take(i + 1).last() == path.segments@[i as int]);
            }
            match self.check_types(scope, &path.segments[i].node.arguments) {
                Ok(_) => {},
                Err(e) => {
                    proof {
                        lemma_segments_error_prefix(scope@, path.segments@, i as int + 1);
                    }
                    return Err(e);
                },
            }
            i = i + 1;
        }
        proof {
            assert(path.segments@.take(path.segments@.len() as int) =~= path.segments@);
        }
        let name = path.last_ident();
        match scope.get_type(name) {
            Some(ty) => Ok(ty.clone()),
            None => Err(TypeCheckError::UnknownType { name: name.to_string() }),
        }
    }

    /// The type of a literal: its written type, or `bool`.
    pub fn check_literal<'a>(&self, scope: &Scope<'a>, literal: &Literal) -> (res: TypeCheckResult<TypeSymbol>)
        ensures
            type_result(res, checked_type(scope@, literal_type(*literal))),
    {
        match literal {
            Literal::Float { value_type, .. } | Literal::Integer { value_type, .. } | Literal::Char { value_type, .. }
            | Literal::UnicodeChar { value_type, .. } | Literal::String { value_type, .. } => self.check_type(scope, value_type),
            Literal::Bool(_) => self.check_type(scope, &TypeKind::Primitive(PrimitiveType::Boolean)),
        }
    }

    /// The type of a `let`: the declared type if there is one, else the type of the
    /// initializer, which must then agree with the declared type; the pattern is
    /// bound to that type. Without either the type is left to inference.
    pub fn check_let_statenent<'a>(
        &self,
        scope: &Scope<'a>,
        pattern: &'a Pattern,
        initializer: Option<TypeSymbol>,
        variable_type: Option<TypeSymbol>,
    ) -> (res: TypeCheckResult<Option<TypeSymbol>>)
        requires
            let_fits(*pattern, opt_symbol_view(initializer), opt_symbol_view(variable_type)),
        ensures
            match (opt_symbol_view(initializer), opt_symbol_view(variable_type)) {
                (Some(i), Some(v)) => if !i.same_type(v) {
                    res matches Err(e) && is_type_mismatch(e, v.type_kind, i.type_kind)
                } else {
                    bound_result(res, scope@, *pattern, v.type_kind, |x: Option<TypeSymbol>| x matches Some(t) && t@ == v)
                },
                (None, Some(v)) => bound_result(res, scope@, *pattern, v.type_kind, |x: Option<TypeSymbol>| x matches Some(t) && t@ == v),
                (Some(i), None) => bound_result(res, scope@, *pattern, i.type_kind, |x: Option<TypeSymbol>| x matches Some(t) && t@ == i),
                (None, None) => res matches Ok(None),
            },
    {
        let type_symbol = match (initializer, variable_type) {
            (Some(initializer), Some(variable_type)) => {
                if !initializer.is_same_type(&variable_type) {
                    return Err(TypeCheckError::TypeMismatch { expected: variable_type.type_kind, found: initializer.type_kind });
                }
                self.resolve_pattern(scope, pattern, &variable_type.type_kind)?;
                Some(variable_type)
            },
            (Some(initializer), None) => {
                self.resolve_pattern(scope, pattern, &initializer.type_kind)?;
                Some(initializer)
            },
            (None, Some(variable_type)) => {
                self.resolve_pattern(scope, pattern, &variable_type.type_kind)?;
                Some(variable_type)
            },
            (None, None) => None,
        };
        Ok(type_symbol)
    }

    /// The type of an `if`: the condition must be `bool`, and with an `else` both
    /// branches must agree; the type is that of the first branch.
    pub fn check_if_statement(&self, condition: TypeSymbol, then_body: TypeSymbol, else_body: Option<TypeSymbol>) -> (res: TypeCheckResult<TypeSymbol>)
        ensures
            !(condition@.type_kind is Boolean) ==> (res matches Err(e) && is_type_mismatch(e, TypeView::Boolean, condition@.type_kind)),
            condition@.type_kind is Boolean ==> match opt_symbol_view(else_body) {
                None => res matches Ok(t) && t@ == then_body@,
                Some(e) => if then_body@.same_type(e) {
                    res matches Ok(t) && t@ == then_body@
                } else {
                    res matches Err(x) && is_type_mismatch(x, then_body@.type_kind, e.type_kind)
                },
            },
    {
        if !matches!(condition.type_kind, PrimitiveType::Boolean) {
            return Err(TypeCheckError::TypeMismatch { expected: PrimitiveType::Boolean, found: condition.type_kind.clone() });
        }
        if condition.type_kind.is_pointer() {
            return Err(
                TypeCheckError::TypeMismatch {
                    expected: PrimitiveType::Boolean,
                    found: PrimitiveType::Pointer { point: Box::new(condition.type_kind.clone()) },
                },
            );
        }
        let Some(else_body) = else_body else {
            return Ok(then_body);
        };
        if !then_body.is_same_type(&else_body) {
            return Err(TypeCheckError::TypeMismatch { expected: then_body.type_kind, found: else_body.type_kind });
        }
        Ok(then_body)
    }

    /// The type of a `return`: it must agree with what the innermost function gives back.
    pub fn check_return(&mut self, return_type: TypeSymbol) -> (res: TypeCheckResult<TypeSymbol>)
        ensures
            final(self)@ == old(self)@,
            old(self)@.function_returns.len() == 0 ==> res matches Err(TypeCheckError::InvalidReturnScope),
            old(self)@.function_returns.len() > 0 ==> {
                let expected = old(self)@.function_returns.last();
                if expected.same_type(return_type@) {
                    res matches Ok(t) && t@ == return_type@
                } else {
                    res matches Err(TypeCheckError::FunctionReturnMismatch { expected: x, found: y })
                        && x@ == expected.type_kind && y@ == return_type@.type_kind
                }
            },
    {
        let n = self.function_return_stack.len();
        if n == 0 {
            return Err(TypeCheckError::InvalidReturnScope);
        }
        let expected = &self.function_return_stack[n - 1];
        if !expected.is_same_type(&return_type) {
            return Err(
                TypeCheckError::FunctionReturnMismatch { expected: expected.type_kind.clone(), found: return_type.type_kind },
            );
        }
        Ok(return_type)
    }

    /// The type of a call: what the called function gives back. Only a function can be called.
    pub fn check_function_call(&self, function: &TypeSymbol, arguments: &[&TypeSymbol]) -> (res: TypeCheckResult<TypeSymbol>)
        ensures
            match function@.type_kind {
                TypeView::Function { return_type, .. } => res matches Ok(t) && t@ == (TypeSymbolView {
                    type_kind: *return_type,
                    option: TypeOption::plain(),
                }),
                _ => res matches Err(TypeCheckError::NotCallable { found }) && found@ == function@.type_kind,
            },
    {
        let PrimitiveType::Function { return_type, arguments: _ } = &function.type_kind else {
            return Err(TypeCheckError::NotCallable { found: function.type_kind.clone() });
        };
        Ok(TypeSymbol::new(return_type.deep_clone()))
    }

    /// Binds `pattern` to `variable_type`: each name it binds must be in `scope`, and
    /// a destructuring pattern must have as many parts as the structure has elements.
    pub fn resolve_pattern<'a>(&self, scope: &Scope<'a>, pattern: &'a Pattern, variable_type: &PrimitiveType) -> (res: TypeCheckResult<()>)
        requires
            pattern_fits_kind(*pattern, variable_type@),
        ensures
            bound_result(res, scope@, *pattern, variable_type@, |x: ()| true),
    {
        match pattern {
            Pattern::Identifier { ident, .. } => {
                if !scope.contains(ident.as_str()) {
                    return Err(TypeCheckError::UnknownPattern { name: ident.clone() });
                }
            },
            Pattern::Multiply(patterns) => {
                let PrimitiveType::Struct { elements } = variable_type else {
                    proof {
                        assert(false);
                    }
                    return Ok(());
                };
                let expected_count = patterns.len();
                let found_count = elements.len();
                proof {
                    crate::primitive::lemma_types_view(elements@);
                }
                if expected_count != found_count {
                    return Err(TypeCheckError::TupleCountMismatch { expected: expected_count, found: found_count });
                }
            },
            Pattern::Literal(_) => {},
            Pattern::Empty => {},
        }
        Ok(())
    }
}

/// A type added to a scope is what a path of its name stands for there: after
/// `name` was added as the type `t`, the one-segment path `name` without generic
/// arguments checks to `t`.
pub proof fn law_added_type_is_found(
    before: ScopeView,
    after: ScopeView,
    name: Seq<char>,
    t: TypeSymbolView,
    res: ScopeResult<()>,
    p: Path,
)
    requires
        added(before, after, name, SymbolView::Type(TypeRequirementView::Expect(t)), res),
        res is Ok,
        p.segments@.len() == 1,
        p.segments@[0].node.ident@ == name,
        p.segments@[0].node.arguments@.len() == 0,
    ensures
        checked_path(after, p) == Ok::<TypeSymbolView, Seq<char>>(t),
{
    let segments = p.segments@;
    assert(segments.drop_last() =~= Seq::<Spanned<PathSegment>>::empty());
    assert(segments.last() == segments[0]);
    assert(checked_types(after, segments[0].node.arguments@) == Ok::<Seq<TypeView>, Seq<char>>(Seq::empty()));
    assert(segments_error(after, segments) is None);
}

/// The arithmetic operators `+ - * /` accept exactly the number types, integers and floating
/// point alike, and all four accept the same types; `%` and the bit and shift operators
/// accept only integers.
pub proof fn law_arithmetic_on_numbers(op: BinaryOperator, t: TypeView)
    ensures
        (op is Addition || op is Subtract || op is Multiply || op is Divide) ==> (binary_allows(op, t) <==> (
        t is Integer || t is Float)),
        !(op is Addition || op is Subtract || op is Multiply || op is Divide) ==> (binary_allows(op, t) <==> t is Integer),
{
}

/// A compound assignment accepts exactly the types that its operator accepts, and `=` accepts
/// the number types.
pub proof fn law_assignment_like_operator(a: AssignOperator, t: TypeView)
    ensures
        assign_arith(a) matches Some(b) ==> (assign_allows(a, t) <==> binary_allows(b, t)),
        a is Assign ==> (assign_allows(a, t) <==> (t is Integer || t is Float)),
{
}

} // verus!
