use super::collector::SymbolCollector;
use super::name_resolver::{name_space_of, to_scope, NameResolver};
use super::{Lowered, ResolveError, ResolveResult};
use crate::ast::{Expression, Literal, LogicalOperator, LoopExpr, Path, Pattern, Statement, TypeKind, SpannedBox};
use crate::cache::LinearAllocator;
use crate::hir::HIRModule;
use crate::desugar::{assign_arith, bool_block, literal_constant, lowerable_literal, Desugar, DesugarError};
use crate::hir::{hir_type, HIRBlock, HIRExpression, HIRStatement, SymbolId};
use crate::name_space::{ItemSymbol, Module};
use crate::primitive::{printed_name, BinaryOperator, ComparisonOperator, PrimitiveType, TypeView};
use crate::scope::errors::ScopeError;
use crate::scope::{
    added, inferring_names, strings_view, ScopeControl, ScopeView, SymbolStore, SymbolView, TypeOption, TypeRequirement, TypeRequirementView,
    TypeSymbol, TypeSymbolView, type_symbol_debug,
};
use crate::span::Spanned;
use crate::type_check::errors::TypeCheckError;
use crate::type_check::operator_names::{
    assign_operator_name, binary_operator_name, comparison_operator_name, logical_operator_name,
};
use crate::type_check::{
    assign_allows, binary_allows, bound_result, checked_type, comparison_allows, is_arithmetic, is_invalid_operation,
    is_operand_mismatch, is_pattern_error, is_type_mismatch, pattern_failure, let_fits, literal_type, operands_agree, opt_symbol_view, path_last_ident,
    TypeChecker,
};
use crate::ast::AssignOperator;
use vstd::prelude::*;

verus! {

/// What resolution reads and changes: the scopes of the open blocks, the name space of
/// the module being resolved, the return types of the open blocks and functions, and the
/// number of the next variable.
pub struct RState<'a> {
    pub scopes: Seq<ScopeView>,
    pub items: Option<Module<'a>>,
    pub scope_returns: Seq<TypeSymbolView>,
    pub function_returns: Seq<TypeSymbolView>,
    pub next_symbol: nat,
}

/// Marks a value as a witness of what a resolution step gave.
pub open spec fn witness<A>(a: A) -> bool {
    true
}

/// Marks a state and a result as a witness of what a resolution step gave.
pub open spec fn witness2<A, B>(a: A, b: B) -> bool {
    true
}

/// A lowered construct by its type's value and the construct, or the error.
pub type Out<T> = Result<(TypeSymbolView, T), ResolveError>;

pub open spec fn out<T>(r: ResolveResult<Lowered<T>>) -> Out<T> {
    match r {
        Ok(l) => Ok((l.type_symbol@, l.hir)),
        Err(e) => Err(e),
    }
}

/// The innermost scope, if a block is open.
pub open spec fn last_scope<'a>(s: RState<'a>) -> Option<ScopeView> {
    if s.scopes.len() == 0 {
        None
    } else {
        Some(s.scopes.last())
    }
}

/// The type of `name`: declared in the innermost scope, else that of the module's item;
/// without an open block there is none.
pub open spec fn type_of_name<'a>(s: RState<'a>, name: Seq<char>) -> Option<TypeSymbolView> {
    if s.scopes.len() == 0 {
        None
    } else {
        match s.scopes.last().declared_type(name) {
            Some(d) => Some(d),
            None => match s.items {
                Some(ns) => if ns.items().contains_key(name) {
                    Some(ns.items()[name].type_of())
                } else {
                    None
                },
                None => None,
            },
        }
    }
}

/// The variable that `name` stands for in the innermost scope.
pub open spec fn variable_of<'a>(s: RState<'a>, name: Seq<char>) -> Option<SymbolId> {
    if s.scopes.len() > 0 && s.scopes.last().symbols.contains_key(name) {
        match s.scopes.last().symbols[name] {
            SymbolView::Variable { id, .. } => Some(id),
            _ => None,
        }
    } else {
        None
    }
}

/// Whether `name` stands for a type in the innermost scope.
pub open spec fn names_type<'a>(s: RState<'a>, name: Seq<char>) -> bool {
    s.scopes.len() > 0 && s.scopes.last().symbols.contains_key(name) && s.scopes.last().symbols[name] is Type
}

/// The module's item `name`.
pub open spec fn item_of<'a>(s: RState<'a>, name: Seq<char>) -> Option<ItemSymbol<'a>> {
    match s.items {
        Some(ns) => if ns.items().contains_key(name) {
            Some(ns.items()[name].item())
        } else {
            None
        },
        None => None,
    }
}

/// A path by its last name: unknown without a type; a variable of the innermost scope reads
/// the variable; a type of the innermost scope, a structure or an enumeration is no value; a
/// function is a call of it without arguments yet.
pub open spec fn path_out<'a>(p: Path, s: RState<'a>, r: Out<Option<HIRExpression>>) -> bool {
    let name = path_last_ident(p);
    match type_of_name(s, name) {
        None => r matches Err(ResolveError::UnresolvedPath { name: n }) && n@ == name,
        Some(ty) => match variable_of(s, name) {
            Some(id) => r matches Ok((t, Some(HIRExpression::Variable { id: i, symbol_type: st }))) && t == ty && i == id
                && st@ == ty.type_kind,
            None => if names_type(s, name) {
                r == Ok::<(TypeSymbolView, Option<HIRExpression>), ResolveError>((ty, None))
            } else {
                match item_of(s, name) {
                    None => r matches Err(ResolveError::UnresolvedPath { name: n }) && n@ == name,
                    Some(ItemSymbol::Function(f)) => r matches Ok((t, Some(HIRExpression::Call { function, args })))
                        && t == ty && function == SymbolId(f.id) && args@.len() == 0,
                    Some(_) => r == Ok::<(TypeSymbolView, Option<HIRExpression>), ResolveError>((ty, None)),
                }
            },
        },
    }
}

/// A path used as a value: what names no value is an error.
pub open spec fn path_value(p: Path, pr: Out<Option<HIRExpression>>, r: Out<HIRExpression>) -> bool {
    match pr {
        Err(x) => r == Err::<(TypeSymbolView, HIRExpression), ResolveError>(x),
        Ok((t, None)) => r matches Err(ResolveError::ExpectedValuePathButFoundType { name }) && name@ == path_last_ident(p),
        Ok((t, Some(h))) => r == Ok::<(TypeSymbolView, HIRExpression), ResolveError>((t, h)),
    }
}

/// A literal: the innermost scope must exist and know the literal's type; it becomes a
/// constant.
pub open spec fn literal_out<'a>(lit: Literal, s: RState<'a>, r: Out<HIRExpression>) -> bool {
    match last_scope(s) {
        None => r == Err::<(TypeSymbolView, HIRExpression), ResolveError>(ResolveError::ScopeError(ScopeError::InvalidScope)),
        Some(sc) => match checked_type(sc, literal_type(lit)) {
            Ok(t) => r matches Ok((ty, HIRExpression::Literal(c))) && ty == t && literal_constant(lit, c@),
            Err(n) => r matches Err(ResolveError::TypeCheckError(TypeCheckError::UnknownType { name })) && name@ == n,
        },
    }
}

/// `lhs op rhs` for an arithmetic operator, once both operands are lowered.
pub open spec fn binary_out(op: BinaryOperator, l: (TypeSymbolView, HIRExpression), rr: (TypeSymbolView, HIRExpression), r: Out<HIRExpression>) -> bool {
    let (lt, lh) = l;
    let (rt, rh) = rr;
    if !operands_agree(lt, rt) {
        r matches Err(ResolveError::TypeCheckError(e)) && is_operand_mismatch(e, lt, rt)
    } else if binary_allows(op, lt.type_kind) {
        r == Ok::<(TypeSymbolView, HIRExpression), ResolveError>((lt, HIRExpression::BinOp { op, lhs: Box::new(lh), rhs: Box::new(rh) }))
    } else {
        r matches Err(ResolveError::TypeCheckError(e)) && is_invalid_operation(
            e,
            if is_arithmetic(op) {
                binary_operator_name(op) + " lhs: "@ + type_symbol_debug(lt) + " rhs: "@ + type_symbol_debug(rt)
            } else {
                binary_operator_name(op)
            },
            "unsupported binary operator"@,
        )
    }
}

/// `lhs op rhs` for an assignment: the left side must be a mutable variable.
pub open spec fn assign_out(op: AssignOperator, l: (TypeSymbolView, HIRExpression), rr: (TypeSymbolView, HIRExpression), r: Out<HIRExpression>) -> bool {
    let (lt, lh) = l;
    let (rt, rh) = rr;
    if !operands_agree(lt, rt) {
        r matches Err(ResolveError::TypeCheckError(e)) && is_operand_mismatch(e, lt, rt)
    } else if !lt.option.mutable {
        r matches Err(ResolveError::TypeCheckError(TypeCheckError::NotMutable { name })) && name@ == printed_name(lt.type_kind)
    } else if !assign_allows(op, lt.type_kind) {
        r matches Err(ResolveError::TypeCheckError(e)) && is_invalid_operation(e, assign_operator_name(op), "unsupported assign operator"@)
    } else {
        match lh {
            HIRExpression::Variable { id, .. } => r == Ok::<(TypeSymbolView, HIRExpression), ResolveError>((
                lt,
                HIRExpression::Store {
                    target: id,
                    value: Box::new(
                        match assign_arith(op) {
                            None => rh,
                            Some(b) => HIRExpression::BinOp { op: b, lhs: Box::new(lh), rhs: Box::new(rh) },
                        },
                    ),
                },
            )),
            _ => r == Err::<(TypeSymbolView, HIRExpression), ResolveError>(ResolveError::DesugarError(DesugarError::UnsupportedAssignTarget)),
        }
    }
}

/// `lhs op rhs` for a comparison.
pub open spec fn comparison_out(op: ComparisonOperator, l: (TypeSymbolView, HIRExpression), rr: (TypeSymbolView, HIRExpression), r: Out<HIRExpression>) -> bool {
    let (lt, lh) = l;
    let (rt, rh) = rr;
    if !operands_agree(lt, rt) {
        r matches Err(ResolveError::TypeCheckError(e)) && is_operand_mismatch(e, lt, rt)
    } else if comparison_allows(op, lt.type_kind) {
        r == Ok::<(TypeSymbolView, HIRExpression), ResolveError>((lt, HIRExpression::CmpOp { op, lhs: Box::new(lh), rhs: Box::new(rh) }))
    } else {
        r matches Err(ResolveError::TypeCheckError(e)) && is_invalid_operation(e, comparison_operator_name(op), "unsupported comparison operator"@)
    }
}

/// `lhs && rhs` and `lhs || rhs`: both `bool`; they become conditions.
pub open spec fn logical_out(op: LogicalOperator, l: (TypeSymbolView, HIRExpression), rr: (TypeSymbolView, HIRExpression), r: Out<HIRExpression>) -> bool {
    let (lt, lh) = l;
    let (rt, rh) = rr;
    if !operands_agree(lt, rt) {
        r matches Err(ResolveError::TypeCheckError(e)) && is_operand_mismatch(e, lt, rt)
    } else if !(lt.type_kind is Boolean) {
        r matches Err(ResolveError::TypeCheckError(e)) && is_invalid_operation(e, logical_operator_name(op), "unsupported logical operator"@)
    } else {
        match r {
            Ok((t, HIRExpression::If { cond, then_block, else_block: Some(eb) })) => t == lt && *cond == lh && if op is Or {
                bool_block(then_block, true) && eb.statements@ == seq![HIRStatement::Expr(rh)]
            } else {
                then_block.statements@ == seq![HIRStatement::Expr(rh)] && bool_block(eb, false)
            },
            _ => false,
        }
    }
}

/// An `if`, once its parts are lowered: the condition must be `bool`, and an `else` must
/// agree with the `then` branch, whose type the `if` has.
pub open spec fn if_out(c: (TypeSymbolView, HIRExpression), th: (TypeSymbolView, HIRExpression), el: Option<(TypeSymbolView, HIRExpression)>, r: Out<HIRExpression>) -> bool {
    if !(c.0.type_kind is Boolean) {
        r matches Err(ResolveError::TypeCheckError(e)) && is_type_mismatch(e, TypeView::Boolean, c.0.type_kind)
    } else {
        match el {
            None => r matches Ok((t, HIRExpression::If { cond, then_block, else_block: None })) && t == th.0 && *cond == c.1
                && then_block.statements@ == seq![HIRStatement::Expr(th.1)],
            Some(ev) => if th.0.same_type(ev.0) {
                r matches Ok((t, HIRExpression::If { cond, then_block, else_block: Some(eb) })) && t == th.0 && *cond == c.1
                    && then_block.statements@ == seq![HIRStatement::Expr(th.1)] && eb.statements@ == seq![HIRStatement::Expr(ev.1)]
            } else {
                r matches Err(ResolveError::TypeCheckError(e)) && is_type_mismatch(e, th.0.type_kind, ev.0.type_kind)
            },
        }
    }
}

pub open spec fn boxed(h: Option<HIRExpression>) -> Option<Box<HIRExpression>> {
    match h {
        Some(x) => Some(Box::new(x)),
        None => None,
    }
}

/// A `return` of a value of type `ty`: it must agree with the innermost function's type.
pub open spec fn return_out<'a>(ty: TypeSymbolView, h: Option<HIRExpression>, s: RState<'a>, r: Out<HIRExpression>) -> bool {
    if s.function_returns.len() == 0 {
        r matches Err(ResolveError::TypeCheckError(TypeCheckError::InvalidReturnScope))
    } else {
        let expected = s.function_returns.last();
        if expected.same_type(ty) {
            r == Ok::<(TypeSymbolView, HIRExpression), ResolveError>((ty, HIRExpression::Return(boxed(h))))
        } else {
            r matches Err(ResolveError::TypeCheckError(TypeCheckError::FunctionReturnMismatch { expected: x, found: y }))
                && x@ == expected.type_kind && y@ == ty.type_kind
        }
    }
}

pub open spec fn hirs(s: Seq<(TypeSymbolView, HIRExpression)>) -> Seq<HIRExpression> {
    s.map_values(|x: (TypeSymbolView, HIRExpression)| x.1)
}

/// A call, once the function and the arguments are lowered: only a function can be called,
/// and the call has the type of what it gives back.
pub open spec fn call_out(f: (TypeSymbolView, HIRExpression), args: Seq<(TypeSymbolView, HIRExpression)>, r: Out<HIRExpression>) -> bool {
    match f.0.type_kind {
        TypeView::Function { return_type, .. } => {
            let t = TypeSymbolView { type_kind: *return_type, option: TypeOption::plain() };
            match f.1 {
                HIRExpression::Call { function: fid, .. } => r matches Ok((ty, HIRExpression::Call { function, args: a }))
                    && ty == t && function == fid && a@ == hirs(args),
                HIRExpression::Variable { id, symbol_type } => if symbol_type is Function {
                    r matches Ok((ty, HIRExpression::Call { function, args: a })) && ty == t && function == id && a@ == hirs(args)
                } else {
                    r == Err::<(TypeSymbolView, HIRExpression), ResolveError>(ResolveError::DesugarError(DesugarError::NotFunction))
                },
                _ => r == Err::<(TypeSymbolView, HIRExpression), ResolveError>(ResolveError::DesugarError(DesugarError::NotFunction)),
            }
        },
        _ => r matches Err(ResolveError::TypeCheckError(TypeCheckError::NotCallable { found })) && found@ == f.0.type_kind,
    }
}

/// The empty scope that a block opens.
pub open spec fn fresh_scope() -> ScopeView {
    ScopeView {
        symbols: Map::empty(),
        names: Seq::empty(),
        imports: Set::empty(),
        return_type: TypeSymbolView::unit(),
    }
}

/// `s` with a block opened.
pub open spec fn entered<'a>(s: RState<'a>) -> RState<'a> {
    RState { scopes: s.scopes.push(fresh_scope()), scope_returns: s.scope_returns.push(TypeSymbolView::unit()), ..s }
}

/// The type that a written type stands for in the innermost scope; a path must also resolve.
pub open spec fn type_out<'a>(tk: TypeKind, s: RState<'a>, r: Result<TypeSymbolView, ResolveError>) -> bool
    decreases tk,
{
    match last_scope(s) {
        None => r == Err::<TypeSymbolView, ResolveError>(ResolveError::ScopeError(ScopeError::InvalidScope)),
        Some(sc) => match checked_type(sc, tk) {
            Err(n) => r matches Err(ResolveError::TypeCheckError(TypeCheckError::UnknownType { name })) && name@ == n,
            Ok(t) => match tk {
                TypeKind::PathType(p) => exists|pr: Out<Option<HIRExpression>>|
                    #![trigger path_out(*p.node, s, pr)]
                    path_out(*p.node, s, pr) && match pr {
                        Err(x) => r == Err::<TypeSymbolView, ResolveError>(x),
                        Ok(_) => r == Ok::<TypeSymbolView, ResolveError>(t),
                    },
                TypeKind::Function { params, return_type } => exists|pr: Result<(), ResolveError>|
                    #![trigger witness(pr)]
                    types_out(params@, s, pr) && match pr {
                        Err(x) => r == Err::<TypeSymbolView, ResolveError>(x),
                        Ok(_) => exists|rr: Result<TypeSymbolView, ResolveError>|
                            #![trigger witness(rr)]
                            type_out(*return_type.node, s, rr) && match rr {
                                Err(x) => r == Err::<TypeSymbolView, ResolveError>(x),
                                Ok(_) => r == Ok::<TypeSymbolView, ResolveError>(t),
                            },
                    },
                _ => r == Ok::<TypeSymbolView, ResolveError>(t),
            },
        },
    }
}

/// Written types resolved in order; the first error is the result.
pub open spec fn types_out<'a>(ps: Seq<Spanned<TypeKind>>, s: RState<'a>, r: Result<(), ResolveError>) -> bool
    decreases ps,
{
    if ps.len() == 0 {
        r == Ok::<(), ResolveError>(())
    } else {
        exists|r0: Result<(), ResolveError>|
            #![trigger witness(r0)]
            types_out(ps.drop_last(), s, r0) && match r0 {
                Err(x) => r == Err::<(), ResolveError>(x),
                Ok(_) => exists|r1: Result<TypeSymbolView, ResolveError>|
                    #![trigger witness(r1)]
                    type_out(ps[ps.len() - 1].node, s, r1) && match r1 {
                        Err(x) => r == Err::<(), ResolveError>(x),
                        Ok(_) => r == Ok::<(), ResolveError>(()),
                    },
            }
    }
}

pub open spec fn type_res(r: ResolveResult<TypeSymbol>) -> Result<TypeSymbolView, ResolveError> {
    match r {
        Ok(t) => Ok(t@),
        Err(e) => Err(e),
    }
}

proof fn lemma_types_err<'a>(ps: Seq<Spanned<TypeKind>>, k: int, s: RState<'a>, x: ResolveError)
    requires
        0 <= k <= ps.len(),
        types_out(ps.take(k), s, Err(x)),
    ensures
        types_out(ps, s, Err(x)),
    decreases ps.len() - k,
{
    if k < ps.len() {
        assert(ps.take(k + 1).drop_last() =~= ps.take(k));
        let e: Result<(), ResolveError> = Err(x);
        assert(types_out(ps.take(k + 1).drop_last(), s, e));
        assert(witness(e));
        assert(types_out(ps.take(k + 1), s, e));
        lemma_types_err(ps, k + 1, s, x);
    } else {
        assert(ps.take(k) =~= ps);
    }
}

/// The type that a pattern binds its name to: the known type with the pattern's options, or
/// only the options while the type is inferred.
pub open spec fn requirement(known: Option<TypeSymbolView>, option: TypeOption) -> TypeRequirementView {
    match known {
        Some(t) => TypeRequirementView::Expect(TypeSymbolView { type_kind: t.type_kind, option }),
        None => TypeRequirementView::Inferring(option),
    }
}

/// Binding a `let` pattern: it takes the next variable number; a name is added to the
/// innermost scope as that variable; a literal is checked as one; the empty pattern binds
/// nothing.
pub open spec fn pattern_out<'a>(p: Pattern, known: Option<TypeSymbolView>, s: RState<'a>, t: RState<'a>, r: Result<(), ResolveError>) -> bool {
    let s1 = RState { next_symbol: s.next_symbol + 1, ..s };
    match p {
        Pattern::Identifier { ident, mutable, reference } => {
            let sym = SymbolView::Variable {
                id: SymbolId(s.next_symbol as usize),
                ty: requirement(known, TypeOption { mutable, reference }),
            };
            &&& t.items == s1.items && t.scope_returns == s1.scope_returns && t.function_returns == s1.function_returns
            &&& t.next_symbol == s1.next_symbol
            &&& if s.scopes.len() == 0 {
                t.scopes == s.scopes && r == Err::<(), ResolveError>(ResolveError::ScopeError(ScopeError::InvalidScope))
            } else {
                &&& t.scopes.len() == s.scopes.len()
                &&& t.scopes.drop_last() == s.scopes.drop_last()
                &&& (r is Ok || (r matches Err(ResolveError::ScopeError(_))))
                &&& added(s.scopes.last(), t.scopes.last(), ident@, sym, to_scope(r))
            }
        },
        Pattern::Literal(lit) => t == s1 && exists|lr: Out<HIRExpression>|
            #![trigger literal_out(lit, s1, lr)]
            literal_out(lit, s1, lr) && match lr {
                Err(x) => r == Err::<(), ResolveError>(x),
                Ok(_) => r is Ok,
            },
        _ => t == s1 && r is Ok,
    }
}

/// The check of a `let` once its type, initializer and pattern are known.
pub open spec fn let_check(sc: ScopeView, p: Pattern, i: Option<TypeSymbolView>, v: Option<TypeSymbolView>, r: Result<TypeSymbolView, ResolveError>) -> bool {
    match (i, v) {
        (Some(iv), Some(vv)) => if !iv.same_type(vv) {
            r matches Err(ResolveError::TypeCheckError(e)) && is_type_mismatch(e, vv.type_kind, iv.type_kind)
        } else {
            bound_out(sc, p, vv, r)
        },
        (None, Some(vv)) => bound_out(sc, p, vv, r),
        (Some(iv), None) => bound_out(sc, p, iv, r),
        (None, None) => false,
    }
}

/// Binding the pattern to `t` in the scope: the type checker's verdict.
pub open spec fn bound_out(sc: ScopeView, p: Pattern, t: TypeSymbolView, r: Result<TypeSymbolView, ResolveError>) -> bool {
    match pattern_failure(sc, p, t.type_kind) {
        Some(f) => r matches Err(ResolveError::TypeCheckError(e)) && is_pattern_error(e, f),
        None => r == Ok::<TypeSymbolView, ResolveError>(t),
    }
}

/// The written type of a `let`, if any, resolved.
pub open spec fn vtype_out<'a>(vt: Option<Spanned<TypeKind>>, s: RState<'a>, r: Result<Option<TypeSymbolView>, ResolveError>) -> bool {
    match vt {
        None => r == Ok::<Option<TypeSymbolView>, ResolveError>(None),
        Some(v) => exists|x: Result<TypeSymbolView, ResolveError>|
            #![trigger type_out(v.node, s, x)]
            type_out(v.node, s, x) && r == match x {
                Ok(t) => Ok::<Option<TypeSymbolView>, ResolveError>(Some(t)),
                Err(e) => Err::<Option<TypeSymbolView>, ResolveError>(e),
            },
    }
}

pub open spec fn or_else(a: Option<TypeSymbolView>, b: Option<TypeSymbolView>) -> Option<TypeSymbolView> {
    match a {
        Some(x) => Some(x),
        None => b,
    }
}

/// The statement that a `let` lowers to: a new variable for a name, nothing otherwise.
pub open spec fn lowered_let<'a>(p: Pattern, ih: Option<HIRExpression>, m: RState<'a>, t: RState<'a>, ty: TypeSymbolView, r: Result<Option<(TypeSymbolView, HIRStatement)>, ResolveError>) -> bool {
    match p {
        Pattern::Identifier { .. } => t == RState { next_symbol: m.next_symbol + 1, ..m } && (r matches Ok(
            Some((t2, HIRStatement::Let { symbol, symbol_type, initializer })),
        ) && t2 == ty && symbol == SymbolId(m.next_symbol as usize) && initializer == ih && symbol_type@ == match ih {
            Some(e) => hir_type(e),
            None => TypeView::Unit,
        }),
        _ => t == m && r == Ok::<Option<(TypeSymbolView, HIRStatement)>, ResolveError>(None),
    }
}

/// Closing a block: the state after it, whether it succeeds, and its errors.
pub open spec fn exit_state<'a>(m: RState<'a>) -> RState<'a> {
    if m.scope_returns.len() == 0 {
        m
    } else if m.scopes.len() == 0 {
        RState { scope_returns: m.scope_returns.drop_last(), ..m }
    } else {
        RState { scope_returns: m.scope_returns.drop_last(), scopes: m.scopes.drop_last(), ..m }
    }
}

pub open spec fn inferring_of(last: ScopeView) -> Seq<Seq<char>> {
    inferring_names(last)
}

pub open spec fn exit_ok<'a>(m: RState<'a>) -> bool {
    m.scope_returns.len() > 0 && m.scopes.len() > 0 && inferring_of(m.scopes.last()).len() == 0
}

pub open spec fn exit_err<'a, T>(m: RState<'a>, r: Result<T, ResolveError>) -> bool {
    if m.scope_returns.len() == 0 {
        r == Err::<T, ResolveError>(ResolveError::TypeCheckError(TypeCheckError::ScopeError(ScopeError::InvalidScope)))
    } else if m.scopes.len() == 0 {
        r == Err::<T, ResolveError>(ResolveError::ScopeError(ScopeError::InvalidScope))
    } else {
        r matches Err(ResolveError::UnresolveTypes { names }) && strings_view(names@) == inferring_of(m.scopes.last())
    }
}

/// What resolving an expression does, from state `s` to state `t`, with result `r`.
///
/// Operands and parts are resolved left to right, and the first error is the result. A
/// literal, a path, an operator, a call, an `if` and a `return` are then checked and
/// lowered as `literal_out`, `path_out`, `binary_out` and the others say. A block with
/// statements opens a scope and a checker block, resolves its statements in order, and
/// closes both; its type is that of its last statement that gives one. A loop has the type
/// `()`, and needs an open block. An index gives its parent.
pub open spec fn resolves<'a>(e: Expression, s: RState<'a>, t: RState<'a>, r: Out<HIRExpression>) -> bool
    decreases e,
{
    match e {
        Expression::Literal(l) => t == s && literal_out(l.node, s, r),
        Expression::Path(p) => t == s && exists|pr: Out<Option<HIRExpression>>|
            #![trigger path_out(p.node, s, pr)]
            path_out(p.node, s, pr) && path_value(p.node, pr, r),
        Expression::Binary { operator, left, right } => exists|m: RState<'a>, lr: Out<HIRExpression>|
            #![trigger witness2(m, lr)]
            resolves(*left.node, s, m, lr) && match lr {
                Err(x) => r == Err::<(TypeSymbolView, HIRExpression), ResolveError>(x) && t == m,
                Ok(lv) => exists|rr: Out<HIRExpression>|
                    #![trigger witness(rr)]
                    resolves(*right.node, m, t, rr) && match rr {
                        Err(x) => r == Err::<(TypeSymbolView, HIRExpression), ResolveError>(x),
                        Ok(rv) => binary_out(operator, lv, rv, r),
                    },
            },
        Expression::Assign { operator, left, right } => exists|m: RState<'a>, lr: Out<HIRExpression>|
            #![trigger witness2(m, lr)]
            resolves(*left.node, s, m, lr) && match lr {
                Err(x) => r == Err::<(TypeSymbolView, HIRExpression), ResolveError>(x) && t == m,
                Ok(lv) => exists|rr: Out<HIRExpression>|
                    #![trigger witness(rr)]
                    resolves(*right.node, m, t, rr) && match rr {
                        Err(x) => r == Err::<(TypeSymbolView, HIRExpression), ResolveError>(x),
                        Ok(rv) => assign_out(operator, lv, rv, r),
                    },
            },
        Expression::Comparison { operator, left, right } => exists|m: RState<'a>, lr: Out<HIRExpression>|
            #![trigger witness2(m, lr)]
            resolves(*left.node, s, m, lr) && match lr {
                Err(x) => r == Err::<(TypeSymbolView, HIRExpression), ResolveError>(x) && t == m,
                Ok(lv) => exists|rr: Out<HIRExpression>|
                    #![trigger witness(rr)]
                    resolves(*right.node, m, t, rr) && match rr {
                        Err(x) => r == Err::<(TypeSymbolView, HIRExpression), ResolveError>(x),
                        Ok(rv) => comparison_out(operator, lv, rv, r),
                    },
            },
        Expression::Logical { operator, left, right } => exists|m: RState<'a>, lr: Out<HIRExpression>|
            #![trigger witness2(m, lr)]
            resolves(*left.node, s, m, lr) && match lr {
                Err(x) => r == Err::<(TypeSymbolView, HIRExpression), ResolveError>(x) && t == m,
                Ok(lv) => exists|rr: Out<HIRExpression>|
                    #![trigger witness(rr)]
                    resolves(*right.node, m, t, rr) && match rr {
                        Err(x) => r == Err::<(TypeSymbolView, HIRExpression), ResolveError>(x),
                        Ok(rv) => logical_out(operator, lv, rv, r),
                    },
            },
        Expression::Index { parent, index } => exists|m: RState<'a>, lr: Out<HIRExpression>|
            #![trigger witness2(m, lr)]
            resolves(*parent.node, s, m, lr) && match lr {
                Err(x) => r == Err::<(TypeSymbolView, HIRExpression), ResolveError>(x) && t == m,
                Ok(lv) => exists|rr: Out<HIRExpression>|
                    #![trigger witness(rr)]
                    resolves(*index.node, m, t, rr) && match rr {
                        Err(x) => r == Err::<(TypeSymbolView, HIRExpression), ResolveError>(x),
                        Ok(_) => r == Ok::<(TypeSymbolView, HIRExpression), ResolveError>(lv),
                    },
            },
        Expression::Call { function, arguments } => exists|m: RState<'a>, fr: Out<HIRExpression>|
            #![trigger witness2(m, fr)]
            resolves(*function.node, s, m, fr) && match fr {
                Err(x) => r == Err::<(TypeSymbolView, HIRExpression), ResolveError>(x) && t == m,
                Ok(fv) => exists|ar: Result<Seq<(TypeSymbolView, HIRExpression)>, ResolveError>|
                    #![trigger witness(ar)]
                    args_resolve(arguments@, m, t, ar) && match ar {
                        Err(x) => r == Err::<(TypeSymbolView, HIRExpression), ResolveError>(x),
                        Ok(av) => call_out(fv, av, r),
                    },
            },
        Expression::Block(ss) => if ss@.len() == 0 {
            t == s && (r matches Ok((ty, HIRExpression::Block(b))) && ty == TypeSymbolView::unit() && b.statements@.len() == 0)
        } else {
            exists|m: RState<'a>, br: Result<(TypeSymbolView, Seq<HIRStatement>), ResolveError>|
                #![trigger witness2(m, br)]
                stmts_resolve(ss@, entered(s), m, br) && match br {
                    Err(x) => r == Err::<(TypeSymbolView, HIRExpression), ResolveError>(x) && t == m,
                    Ok((ty, hs)) => t == exit_state(m) && if exit_ok(m) {
                        r matches Ok((t2, HIRExpression::Block(b))) && t2 == ty && b.statements@ == hs
                    } else {
                        exit_err(m, r)
                    },
                }
        },
        Expression::If { condition, then_body, else_body } => exists|m: RState<'a>, cr: Out<HIRExpression>|
            #![trigger witness2(m, cr)]
            resolves(*condition.node, s, m, cr) && match cr {
                Err(x) => r == Err::<(TypeSymbolView, HIRExpression), ResolveError>(x) && t == m,
                Ok(cv) => exists|m2: RState<'a>, tr: Out<HIRExpression>|
                    #![trigger witness2(m2, tr)]
                    resolves(*then_body.node, m, m2, tr) && match tr {
                        Err(x) => r == Err::<(TypeSymbolView, HIRExpression), ResolveError>(x) && t == m2,
                        Ok(tv) => match else_body {
                            None => t == m2 && if_out(cv, tv, None, r),
                            Some(eb) => exists|er: Out<HIRExpression>|
                                #![trigger witness(er)]
                                resolves(*eb.node, m2, t, er) && match er {
                                    Err(x) => r == Err::<(TypeSymbolView, HIRExpression), ResolveError>(x),
                                    Ok(ev) => if_out(cv, tv, Some(ev), r),
                                },
                        },
                    },
            },
        Expression::Loop(l) => match l.node {
            LoopExpr::Loop { body } => exists|br: Out<HIRExpression>|
                #![trigger witness(br)]
                resolves(*body.node, s, t, br) && match br {
                    Err(x) => r == Err::<(TypeSymbolView, HIRExpression), ResolveError>(x),
                    Ok(bv) => if t.scopes.len() == 0 {
                        r == Err::<(TypeSymbolView, HIRExpression), ResolveError>(ResolveError::ScopeError(ScopeError::InvalidScope))
                    } else {
                        r matches Ok((ty, HIRExpression::Loop { body: lb })) && ty == TypeSymbolView::unit()
                            && lb.statements@ == seq![HIRStatement::Expr(bv.1)]
                    },
                },
            LoopExpr::While { condition, body } => exists|m: RState<'a>, cr: Out<HIRExpression>|
                #![trigger witness2(m, cr)]
                resolves(*condition.node, s, m, cr) && match cr {
                    Err(x) => r == Err::<(TypeSymbolView, HIRExpression), ResolveError>(x) && t == m,
                    Ok(cv) => exists|br: Out<HIRExpression>|
                        #![trigger witness(br)]
                        resolves(*body.node, m, t, br) && match br {
                            Err(x) => r == Err::<(TypeSymbolView, HIRExpression), ResolveError>(x),
                            Ok(bv) => if t.scopes.len() == 0 {
                                r == Err::<(TypeSymbolView, HIRExpression), ResolveError>(ResolveError::ScopeError(ScopeError::InvalidScope))
                            } else {
                                r matches Ok((ty, HIRExpression::Loop { body: lb })) && ty == TypeSymbolView::unit()
                                    && lb.statements@.len() == 1 && match lb.statements@[0] {
                                    HIRStatement::Expr(HIRExpression::If { cond, then_block, else_block: Some(eb) }) => *cond == cv.1
                                        && then_block.statements@ == seq![HIRStatement::Expr(bv.1)]
                                        && eb.statements@ == seq![HIRStatement::Expr(HIRExpression::Break(None))],
                                    _ => false,
                                }
                            },
                        },
                },
            LoopExpr::For { .. } => false,
        },
        Expression::Return(x) => match x {
            None => t == s && return_out(TypeSymbolView::unit(), None, s, r),
            Some(v) => exists|vr: Out<HIRExpression>|
                #![trigger witness(vr)]
                resolves(*v.node, s, t, vr) && match vr {
                    Err(x) => r == Err::<(TypeSymbolView, HIRExpression), ResolveError>(x),
                    Ok((ty, h)) => return_out(ty, Some(h), t, r),
                },
        },
        Expression::Break { expression, .. } => match expression {
            None => t == s && r == Ok::<(TypeSymbolView, HIRExpression), ResolveError>((TypeSymbolView::unit(), HIRExpression::Break(None))),
            Some(v) => exists|vr: Out<HIRExpression>|
                #![trigger witness(vr)]
                resolves(*v.node, s, t, vr) && match vr {
                    Err(x) => r == Err::<(TypeSymbolView, HIRExpression), ResolveError>(x),
                    Ok((ty, h)) => r == Ok::<(TypeSymbolView, HIRExpression), ResolveError>((ty, HIRExpression::Break(Some(Box::new(h))))),
                },
        },
        Expression::Continue { .. } => t == s && r == Ok::<(TypeSymbolView, HIRExpression), ResolveError>((TypeSymbolView::unit(), HIRExpression::Continue)),
        _ => false,
    }
}

/// Call arguments resolved left to right; the first error is the result.
pub open spec fn args_resolve<'a>(ss: Seq<SpannedBox<Expression>>, s: RState<'a>, t: RState<'a>, r: Result<Seq<(TypeSymbolView, HIRExpression)>, ResolveError>) -> bool
    decreases ss,
{
    if ss.len() == 0 {
        t == s && r == Ok::<Seq<(TypeSymbolView, HIRExpression)>, ResolveError>(Seq::empty())
    } else {
        exists|m: RState<'a>, r0: Result<Seq<(TypeSymbolView, HIRExpression)>, ResolveError>|
            #![trigger witness2(m, r0)]
            args_resolve(ss.drop_last(), s, m, r0) && match r0 {
                Err(x) => r == Err::<Seq<(TypeSymbolView, HIRExpression)>, ResolveError>(x) && t == m,
                Ok(v0) => exists|r1: Out<HIRExpression>|
                    #![trigger witness(r1)]
                    resolves(*ss[ss.len() - 1].node, m, t, r1) && match r1 {
                        Err(x) => r == Err::<Seq<(TypeSymbolView, HIRExpression)>, ResolveError>(x),
                        Ok(v1) => r == Ok::<Seq<(TypeSymbolView, HIRExpression)>, ResolveError>(v0.push(v1)),
                    },
            }
    }
}

/// Statements resolved in order; the type is that of the last one that gives one, `()`
/// without such.
pub open spec fn stmts_resolve<'a>(ss: Seq<Spanned<Statement>>, s: RState<'a>, t: RState<'a>, r: Result<(TypeSymbolView, Seq<HIRStatement>), ResolveError>) -> bool
    decreases ss,
{
    if ss.len() == 0 {
        t == s && r == Ok::<(TypeSymbolView, Seq<HIRStatement>), ResolveError>((TypeSymbolView::unit(), Seq::empty()))
    } else {
        exists|m: RState<'a>, r0: Result<(TypeSymbolView, Seq<HIRStatement>), ResolveError>|
            #![trigger witness2(m, r0)]
            stmts_resolve(ss.drop_last(), s, m, r0) && match r0 {
                Err(x) => r == Err::<(TypeSymbolView, Seq<HIRStatement>), ResolveError>(x) && t == m,
                Ok((ty0, hs0)) => exists|r1: Result<Option<(TypeSymbolView, HIRStatement)>, ResolveError>|
                    #![trigger witness(r1)]
                    stmt_resolves(ss[ss.len() - 1].node, m, t, r1) && match r1 {
                        Err(x) => r == Err::<(TypeSymbolView, Seq<HIRStatement>), ResolveError>(x),
                        Ok(None) => r == Ok::<(TypeSymbolView, Seq<HIRStatement>), ResolveError>((ty0, hs0)),
                        Ok(Some((ty1, h))) => r == Ok::<(TypeSymbolView, Seq<HIRStatement>), ResolveError>((ty1, hs0.push(h))),
                    },
            }
    }
}

/// A statement: an expression gives itself; a `let` resolves its written type, then its
/// initializer, then binds its pattern, checks the whole and lowers it; `;` gives nothing.
pub open spec fn stmt_resolves<'a>(st: Statement, s: RState<'a>, t: RState<'a>, r: Result<Option<(TypeSymbolView, HIRStatement)>, ResolveError>) -> bool
    decreases st,
{
    match st {
        Statement::Semicolon => t == s && r == Ok::<Option<(TypeSymbolView, HIRStatement)>, ResolveError>(None),
        Statement::Expression(x) => exists|xr: Out<HIRExpression>|
            #![trigger witness(xr)]
            resolves(*x.node, s, t, xr) && match xr {
                Err(e) => r == Err::<Option<(TypeSymbolView, HIRStatement)>, ResolveError>(e),
                Ok((ty, h)) => r == Ok::<Option<(TypeSymbolView, HIRStatement)>, ResolveError>(Some((ty, HIRStatement::Expr(h)))),
            },
        Statement::Let { name, variable_type, initializer, .. } => exists|vr: Result<Option<TypeSymbolView>, ResolveError>|
            #![trigger vtype_out(variable_type, s, vr)]
            vtype_out(variable_type, s, vr) && match vr {
                Err(x) => r == Err::<Option<(TypeSymbolView, HIRStatement)>, ResolveError>(x) && t == s,
                Ok(vt) => exists|m1: RState<'a>, ir: Out<Option<HIRExpression>>|
                    #![trigger witness2(m1, ir)]
                    init_resolves(initializer, s, m1, ir) && match ir {
                        Err(x) => r == Err::<Option<(TypeSymbolView, HIRStatement)>, ResolveError>(x) && t == m1,
                        Ok((ity, ih)) => {
                            let it = if ih is Some { Some(ity) } else { None };
                            exists|m2: RState<'a>, pr: Result<(), ResolveError>|
                                #![trigger witness2(m2, pr)]
                                pattern_out(name.node, or_else(vt, it), m1, m2, pr) && match pr {
                                    Err(x) => r == Err::<Option<(TypeSymbolView, HIRStatement)>, ResolveError>(x) && t == m2,
                                    Ok(_) => match last_scope(m2) {
                                        None => r == Err::<Option<(TypeSymbolView, HIRStatement)>, ResolveError>(
                                            ResolveError::ScopeError(ScopeError::InvalidScope),
                                        ) && t == m2,
                                        Some(sc) => exists|cr: Result<TypeSymbolView, ResolveError>|
                                            #![trigger witness(cr)]
                                            let_check(sc, name.node, it, vt, cr) && match cr {
                                                Err(x) => r == Err::<Option<(TypeSymbolView, HIRStatement)>, ResolveError>(x) && t == m2,
                                                Ok(ty) => lowered_let(name.node, ih, m2, t, ty, r),
                                            },
                                    },
                                }
                        },
                    },
            },
        _ => false,
    }
}

/// The initializer of a `let`, if any, resolved; without one the type is `()` and there is
/// nothing to lower.
pub open spec fn init_resolves<'a>(init: Option<SpannedBox<Expression>>, s: RState<'a>, t: RState<'a>, r: Out<Option<HIRExpression>>) -> bool
    decreases init,
{
    match init {
        None => t == s && r == Ok::<(TypeSymbolView, Option<HIRExpression>), ResolveError>((TypeSymbolView::unit(), None)),
        Some(x) => exists|xr: Out<HIRExpression>|
            #![trigger witness(xr)]
            resolves(*x.node, s, t, xr) && r == match xr {
                Ok((ty, h)) => Ok::<(TypeSymbolView, Option<HIRExpression>), ResolveError>((ty, Some(h))),
                Err(e) => Err::<(TypeSymbolView, Option<HIRExpression>), ResolveError>(e),
            },
    }
}

/// The expressions that resolution handles: no arrays, field accesses, method calls or
/// `for` loops, no `!` between two operands, only literals that lower to constants, no
/// items among statements, and each `let` with an initializer or a written type, binding a
/// name, a literal or nothing.
pub open spec fn supported(e: Expression) -> bool
    decreases e,
{
    match e {
        Expression::Literal(l) => lowerable_literal(l.node),
        Expression::Path(_) => true,
        Expression::Binary { left, right, .. } => supported(*left.node) && supported(*right.node),
        Expression::Assign { left, right, .. } => supported(*left.node) && supported(*right.node),
        Expression::Comparison { left, right, .. } => supported(*left.node) && supported(*right.node),
        Expression::Logical { operator, left, right } => !(operator is Not) && supported(*left.node) && supported(*right.node),
        Expression::Index { parent, index } => supported(*parent.node) && supported(*index.node),
        Expression::Call { function, arguments } => supported(*function.node) && supported_args(arguments@),
        Expression::Block(ss) => supported_stmts(ss@),
        Expression::If { condition, then_body, else_body } => supported(*condition.node) && supported(*then_body.node)
            && match else_body {
            Some(eb) => supported(*eb.node),
            None => true,
        },
        Expression::Loop(l) => match l.node {
            LoopExpr::Loop { body } => supported(*body.node),
            LoopExpr::While { condition, body } => supported(*condition.node) && supported(*body.node),
            LoopExpr::For { .. } => false,
        },
        Expression::Return(x) => match x {
            Some(v) => supported(*v.node),
            None => true,
        },
        Expression::Break { expression, .. } => match expression {
            Some(v) => supported(*v.node),
            None => true,
        },
        Expression::Continue { .. } => true,
        _ => false,
    }
}

pub open spec fn supported_args(ss: Seq<SpannedBox<Expression>>) -> bool
    decreases ss,
{
    if ss.len() == 0 {
        true
    } else {
        supported_args(ss.drop_last()) && supported(*ss[ss.len() - 1].node)
    }
}

pub open spec fn supported_stmts(ss: Seq<Spanned<Statement>>) -> bool
    decreases ss,
{
    if ss.len() == 0 {
        true
    } else {
        supported_stmts(ss.drop_last()) && supported_stmt(ss[ss.len() - 1].node)
    }
}

pub open spec fn supported_stmt(st: Statement) -> bool
    decreases st,
{
    match st {
        Statement::Semicolon => true,
        Statement::Expression(x) => supported(*x.node),
        Statement::Let { name, variable_type, initializer, .. } => {
            &&& (initializer is Some || variable_type is Some)
            &&& match name.node {
                Pattern::Multiply(_) => false,
                Pattern::Literal(l) => lowerable_literal(l),
                _ => true,
            }
            &&& match initializer {
                Some(x) => supported(*x.node),
                None => true,
            }
        },
        Statement::Item(_) => false,
    }
}

/// How many variable numbers resolving an expression can take: two for each `let`.
pub open spec fn demand(e: Expression) -> nat
    decreases e,
{
    match e {
        Expression::Binary { left, right, .. } => demand(*left.node) + demand(*right.node),
        Expression::Assign { left, right, .. } => demand(*left.node) + demand(*right.node),
        Expression::Comparison { left, right, .. } => demand(*left.node) + demand(*right.node),
        Expression::Logical { left, right, .. } => demand(*left.node) + demand(*right.node),
        Expression::Index { parent, index } => demand(*parent.node) + demand(*index.node),
        Expression::Call { function, arguments } => demand(*function.node) + demand_args(arguments@),
        Expression::Block(ss) => demand_stmts(ss@),
        Expression::If { condition, then_body, else_body } => demand(*condition.node) + demand(*then_body.node) + match else_body {
            Some(eb) => demand(*eb.node),
            None => 0,
        },
        Expression::Loop(l) => match l.node {
            LoopExpr::Loop { body } => demand(*body.node),
            LoopExpr::While { condition, body } => demand(*condition.node) + demand(*body.node),
            LoopExpr::For { .. } => 0,
        },
        Expression::Return(Some(v)) => demand(*v.node),
        Expression::Break { expression: Some(v), .. } => demand(*v.node),
        _ => 0,
    }
}

pub open spec fn demand_args(ss: Seq<SpannedBox<Expression>>) -> nat
    decreases ss,
{
    if ss.len() == 0 {
        0
    } else {
        demand_args(ss.drop_last()) + demand(*ss[ss.len() - 1].node)
    }
}

pub open spec fn demand_stmts(ss: Seq<Spanned<Statement>>) -> nat
    decreases ss,
{
    if ss.len() == 0 {
        0
    } else {
        demand_stmts(ss.drop_last()) + demand_stmt(ss[ss.len() - 1].node)
    }
}

pub open spec fn demand_stmt(st: Statement) -> nat
    decreases st,
{
    match st {
        Statement::Expression(x) => demand(*x.node),
        Statement::Let { initializer, .. } => 2 + match initializer {
            Some(x) => demand(*x.node),
            None => 0,
        },
        _ => 0,
    }
}

pub open spec fn args_out(r: ResolveResult<(Vec<TypeSymbol>, Vec<HIRExpression>)>) -> Result<Seq<(TypeSymbolView, HIRExpression)>, ResolveError> {
    match r {
        Ok((tys, hs)) => Ok(pairs(tys@, hs@)),
        Err(e) => Err(e),
    }
}

pub open spec fn pairs(tys: Seq<TypeSymbol>, hs: Seq<HIRExpression>) -> Seq<(TypeSymbolView, HIRExpression)> {
    Seq::new(hs.len(), |i: int| (tys[i]@, hs[i]))
}

pub open spec fn stmts_out(r: ResolveResult<(TypeSymbol, Vec<HIRStatement>)>) -> Result<(TypeSymbolView, Seq<HIRStatement>), ResolveError> {
    match r {
        Ok((t, hs)) => Ok((t@, hs@)),
        Err(e) => Err(e),
    }
}

pub open spec fn stmt_out(r: ResolveResult<Option<Lowered<HIRStatement>>>) -> Result<Option<(TypeSymbolView, HIRStatement)>, ResolveError> {
    match r {
        Ok(Some(l)) => Ok(Some((l.type_symbol@, l.hir))),
        Ok(None) => Ok(None),
        Err(e) => Err(e),
    }
}

pub open spec fn unit_of<T>(r: ResolveResult<T>) -> ResolveResult<()> {
    match r {
        Ok(_) => Ok(()),
        Err(e) => Err(e),
    }
}

pub open spec fn known_view(k: Option<&TypeSymbol>) -> Option<TypeSymbolView> {
    match k {
        Some(t) => Some(t@),
        None => None,
    }
}

/// A prefix of the arguments takes no more variable numbers than all of them, and is
/// handled where all of them are.
proof fn lemma_args_prefix(ss: Seq<SpannedBox<Expression>>, i: int)
    requires
        0 <= i <= ss.len(),
    ensures
        demand_args(ss.take(i)) <= demand_args(ss),
        supported_args(ss) ==> supported_args(ss.take(i)),
    decreases ss.len() - i,
{
    if i < ss.len() {
        lemma_args_prefix(ss, i + 1);
        assert(ss.take(i + 1).drop_last() =~= ss.take(i));
    } else {
        assert(ss.take(i) =~= ss);
    }
}

/// An error among the first `k` arguments is the error of all of them.
proof fn lemma_args_err<'a>(ss: Seq<SpannedBox<Expression>>, k: int, s: RState<'a>, t: RState<'a>, x: ResolveError)
    requires
        0 <= k <= ss.len(),
        args_resolve(ss.take(k), s, t, Err(x)),
    ensures
        args_resolve(ss, s, t, Err(x)),
    decreases ss.len() - k,
{
    if k < ss.len() {
        assert(ss.take(k + 1).drop_last() =~= ss.take(k));
        let e: Result<Seq<(TypeSymbolView, HIRExpression)>, ResolveError> = Err(x);
        assert(args_resolve(ss.take(k + 1).drop_last(), s, t, e));
        assert(ss.take(k + 1).len() > 0);
        assert(witness2(t, e));
        assert(args_resolve(ss.take(k + 1), s, t, e));
        lemma_args_err(ss, k + 1, s, t, x);
    } else {
        assert(ss.take(k) =~= ss);
    }
}

proof fn lemma_stmts_prefix(ss: Seq<Spanned<Statement>>, i: int)
    requires
        0 <= i <= ss.len(),
    ensures
        demand_stmts(ss.take(i)) <= demand_stmts(ss),
        supported_stmts(ss) ==> supported_stmts(ss.take(i)),
    decreases ss.len() - i,
{
    if i < ss.len() {
        lemma_stmts_prefix(ss, i + 1);
        assert(ss.take(i + 1).drop_last() =~= ss.take(i));
    } else {
        assert(ss.take(i) =~= ss);
    }
}

proof fn lemma_stmts_err<'a>(ss: Seq<Spanned<Statement>>, k: int, s: RState<'a>, t: RState<'a>, x: ResolveError)
    requires
        0 <= k <= ss.len(),
        stmts_resolve(ss.take(k), s, t, Err(x)),
    ensures
        stmts_resolve(ss, s, t, Err(x)),
    decreases ss.len() - k,
{
    if k < ss.len() {
        assert(ss.take(k + 1).drop_last() =~= ss.take(k));
        let e: Result<(TypeSymbolView, Seq<HIRStatement>), ResolveError> = Err(x);
        assert(stmts_resolve(ss.take(k + 1).drop_last(), s, t, e));
        assert(ss.take(k + 1).len() > 0);
        assert(witness2(t, e));
        assert(stmts_resolve(ss.take(k + 1), s, t, e));
        lemma_stmts_err(ss, k + 1, s, t, x);
    } else {
        assert(ss.take(k) =~= ss);
    }
}

/// Resolves the names of expressions, checks their types and lowers them, inside the
/// module and blocks that the name resolver follows.
pub struct Resolver<'a> {
    pub name_resolver: NameResolver<'a>,
    pub type_checker: TypeChecker,
    pub desugar: Desugar,
    pub collector: SymbolCollector<'a>,
}

impl<'a> Resolver<'a> {
    /// What resolution reads and changes.
    pub open spec fn state(&self) -> RState<'a> {
        RState {
            scopes: self.name_resolver.scopes(),
            items: name_space_of(self.name_resolver.root(), self.name_resolver.path()),
            scope_returns: self.type_checker@.scope_returns,
            function_returns: self.type_checker@.function_returns,
            next_symbol: self.desugar.next_symbol(),
        }
    }

    /// What resolving an expression leaves as it was: the module tree and the place in it,
    /// the lowered module and the function numbers.
    pub open spec fn kept(&self, other: Self) -> bool {
        &&& other.name_resolver.root() == self.name_resolver.root()
        &&& other.name_resolver.path() == self.name_resolver.path()
        &&& other.desugar.module() == self.desugar.module()
        &&& other.desugar.function_numbers() == self.desugar.function_numbers()
        &&& other.desugar.function_next() == self.desugar.function_next()
        &&& other.desugar.wf() == self.desugar.wf()
    }

    /// A resolver for the project `project_name`, lowering into `module` and numbering
    /// functions with `allocator`; outside any module, block and function.
    pub fn new(project_name: &'a str, module: HIRModule, allocator: LinearAllocator) -> (r: Self)
        requires
            allocator.wf(),
        ensures
            r.name_resolver.root().name() == project_name@,
            r.name_resolver.root().children() == Map::<Seq<char>, Box<Module<'a>>>::empty(),
            r.name_resolver.path() == Seq::<Seq<char>>::empty(),
            r.state().scopes == Seq::<ScopeView>::empty(),
            r.state().scope_returns == Seq::<TypeSymbolView>::empty(),
            r.state().function_returns == Seq::<TypeSymbolView>::empty(),
            r.state().next_symbol == 0,
            r.desugar.module() == module,
            r.desugar.function_numbers() == allocator.numbers(),
            r.desugar.wf(),
    {
        Self {
            name_resolver: NameResolver::new(project_name),
            type_checker: TypeChecker::new(),
            desugar: Desugar::new(module, allocator),
            collector: SymbolCollector::new(),
        }
    }

    /// A literal: its type in the innermost scope, and the constant it lowers to.
    fn resolve_literal(&mut self, lit: &Literal) -> (res: ResolveResult<Lowered<HIRExpression>>)
        requires
            lowerable_literal(*lit),
        ensures
            literal_out(*lit, old(self).state(), out(res)),
            final(self).state() == old(self).state(),
            old(self).kept(*final(self)),
    {
        let scope = match self.name_resolver.get_scope() {
            Some(sc) => sc,
            None => return Err(ResolveError::ScopeError(ScopeError::InvalidScope)),
        };
        let ty = match self.type_checker.check_literal(scope, lit) {
            Ok(t) => t,
            Err(e) => return Err(ResolveError::TypeCheckError(e)),
        };
        let hir = match self.desugar.lower_literal(lit) {
            Ok(h) => h,
            Err(e) => return Err(ResolveError::DesugarError(e)),
        };
        Ok(Lowered { type_symbol: ty, hir })
    }

    /// A path by its last name; see `path_out`.
    fn resolve_path(&mut self, path: &'a Path) -> (res: ResolveResult<Lowered<Option<HIRExpression>>>)
        ensures
            path_out(*path, old(self).state(), out(res)),
            final(self).state() == old(self).state(),
            old(self).kept(*final(self)),
    {
        let name = path.last_ident();
        let type_symbol = match self.name_resolver.get_type(name) {
            Some(t) => t.clone(),
            None => return Err(ResolveError::UnresolvedPath { name: name.to_string() }),
        };
        if let Some(id) = self.name_resolver.get_variable_id(name) {
            let id: usize = id.0;
            let hir = match self.desugar.lower_symbol(id, type_symbol.type_kind.deep_clone()) {
                Ok(h) => h,
                Err(e) => return Err(ResolveError::DesugarError(e)),
            };
            return Ok(Lowered { type_symbol, hir: Some(hir) });
        }
        if self.name_resolver.is_type(name) {
            return Ok(Lowered { type_symbol, hir: None });
        }
        let item = match self.name_resolver.get_item(name) {
            Some(i) => i,
            None => return Err(ResolveError::UnresolvedPath { name: name.to_string() }),
        };
        let hir = match item {
            ItemSymbol::Function(function_item) => match self.desugar.lower_function_symbol(function_item.id) {
                Ok(h) => Some(h),
                Err(e) => return Err(ResolveError::DesugarError(e)),
            },
            ItemSymbol::Enumeration(_) => None,
            ItemSymbol::Struct(_) => None,
        };
        Ok(Lowered { type_symbol, hir })
    }

    /// `lhs op rhs` for an arithmetic operator; see `binary_out`.
    fn finish_binary(&mut self, op: &BinaryOperator, l: Lowered<HIRExpression>, r: Lowered<HIRExpression>) -> (res: ResolveResult<Lowered<HIRExpression>>)
        ensures
            binary_out(*op, (l.type_symbol@, l.hir), (r.type_symbol@, r.hir), out(res)),
            final(self).state() == old(self).state(),
            old(self).kept(*final(self)),
    {
        let ty = match self.type_checker.check_binary_operator(op, l.type_symbol, r.type_symbol) {
            Ok(t) => t,
            Err(e) => return Err(ResolveError::TypeCheckError(e)),
        };
        let hir = match self.desugar.lower_binary_operator(*op, l.hir, r.hir) {
            Ok(h) => h,
            Err(e) => return Err(ResolveError::DesugarError(e)),
        };
        Ok(Lowered { type_symbol: ty, hir })
    }

    /// `lhs op rhs` for an assignment; see `assign_out`.
    fn finish_assign(&mut self, op: &AssignOperator, l: Lowered<HIRExpression>, r: Lowered<HIRExpression>) -> (res: ResolveResult<Lowered<HIRExpression>>)
        ensures
            assign_out(*op, (l.type_symbol@, l.hir), (r.type_symbol@, r.hir), out(res)),
            final(self).state() == old(self).state(),
            old(self).kept(*final(self)),
    {
        let ty = match self.type_checker.check_assign_operator(op, l.type_symbol, r.type_symbol) {
            Ok(t) => t,
            Err(e) => return Err(ResolveError::TypeCheckError(e)),
        };
        let hir = match self.desugar.lower_assign_operator(*op, l.hir, r.hir) {
            Ok(h) => h,
            Err(e) => return Err(ResolveError::DesugarError(e)),
        };
        Ok(Lowered { type_symbol: ty, hir })
    }

    /// `lhs op rhs` for a comparison; see `comparison_out`.
    fn finish_comparison(&mut self, op: &ComparisonOperator, l: Lowered<HIRExpression>, r: Lowered<HIRExpression>) -> (res: ResolveResult<Lowered<HIRExpression>>)
        ensures
            comparison_out(*op, (l.type_symbol@, l.hir), (r.type_symbol@, r.hir), out(res)),
            final(self).state() == old(self).state(),
            old(self).kept(*final(self)),
    {
        let ty = match self.type_checker.check_comparison_operator(op, l.type_symbol, r.type_symbol) {
            Ok(t) => t,
            Err(e) => return Err(ResolveError::TypeCheckError(e)),
        };
        let hir = match self.desugar.lower_comparison_operator(*op, l.hir, r.hir) {
            Ok(h) => h,
            Err(e) => return Err(ResolveError::DesugarError(e)),
        };
        Ok(Lowered { type_symbol: ty, hir })
    }

    /// `lhs && rhs` or `lhs || rhs`; see `logical_out`.
    fn finish_logical(&mut self, op: &LogicalOperator, l: Lowered<HIRExpression>, r: Lowered<HIRExpression>) -> (res: ResolveResult<Lowered<HIRExpression>>)
        requires
            !(*op is Not),
        ensures
            logical_out(*op, (l.type_symbol@, l.hir), (r.type_symbol@, r.hir), out(res)),
            final(self).state() == old(self).state(),
            old(self).kept(*final(self)),
    {
        let ty = match self.type_checker.check_logical_operator(op, l.type_symbol, r.type_symbol) {
            Ok(t) => t,
            Err(e) => return Err(ResolveError::TypeCheckError(e)),
        };
        let hir = match self.desugar.lower_logical_operator(*op, l.hir, r.hir) {
            Ok(h) => h,
            Err(e) => return Err(ResolveError::DesugarError(e)),
        };
        Ok(Lowered { type_symbol: ty, hir })
    }
}

impl<'a> Resolver<'a> {
    /// Resolves an expression; see `resolves` for what it gives and how the state changes.
    #[verifier::loop_isolation(false)]
    pub fn resolve_expression(&mut self, e: &'a Expression) -> (res: ResolveResult<Lowered<HIRExpression>>)
        requires
            supported(*e),
            old(self).state().next_symbol + demand(*e) <= usize::MAX,
        ensures
            resolves(*e, old(self).state(), final(self).state(), out(res)),
            old(self).kept(*final(self)),
            final(self).state().next_symbol <= old(self).state().next_symbol + demand(*e),
        decreases e, 1nat,
    {
        let ghost s0 = self.state();
        match e {
            Expression::Literal(l) => self.resolve_literal(&l.node),
            Expression::Path(p) => {
                let pr = self.resolve_path(&p.node);
                proof {
                    assert(path_out(p.node, s0, out(pr)));
                }
                match pr {
                    Err(x) => Err(x),
                    Ok(l) => {
                        let Lowered { type_symbol, hir } = l;
                        match hir {
                            Some(h) => Ok(Lowered { type_symbol, hir: h }),
                            None => Err(ResolveError::ExpectedValuePathButFoundType { name: p.node.last_ident().to_string() }),
                        }
                    },
                }
            },
            Expression::Binary { operator, left, right } => {
                let l = match self.resolve_expression(&left.node) {
                    Ok(l) => l,
                    Err(x) => {
                        proof {
                            assert(witness2(self.state(), out::<HIRExpression>(Err(x))));
                        }
                        return Err(x);
                    },
                };
                let ghost m = self.state();
                let ghost lv = out::<HIRExpression>(Ok(l));
                let r = match self.resolve_expression(&right.node) {
                    Ok(r) => r,
                    Err(x) => {
                        proof {
                            assert(witness2(m, lv));
                            assert(witness(out::<HIRExpression>(Err(x))));
                        }
                        return Err(x);
                    },
                };
                let ghost rv = out::<HIRExpression>(Ok(r));
                let res = self.finish_binary(operator, l, r);
                proof {
                    assert(witness2(m, lv));
                    assert(witness(rv));
                }
                res
            },
            Expression::Assign { operator, left, right } => {
                let l = match self.resolve_expression(&left.node) {
                    Ok(l) => l,
                    Err(x) => {
                        proof {
                            assert(witness2(self.state(), out::<HIRExpression>(Err(x))));
                        }
                        return Err(x);
                    },
                };
                let ghost m = self.state();
                let ghost lv = out::<HIRExpression>(Ok(l));
                let r = match self.resolve_expression(&right.node) {
                    Ok(r) => r,
                    Err(x) => {
                        proof {
                            assert(witness2(m, lv));
                            assert(witness(out::<HIRExpression>(Err(x))));
                        }
                        return Err(x);
                    },
                };
                let ghost rv = out::<HIRExpression>(Ok(r));
                let res = self.finish_assign(operator, l, r);
                proof {
                    assert(witness2(m, lv));
                    assert(witness(rv));
                }
                res
            },
            Expression::Comparison { operator, left, right } => {
                let l = match self.resolve_expression(&left.node) {
                    Ok(l) => l,
                    Err(x) => {
                        proof {
                            assert(witness2(self.state(), out::<HIRExpression>(Err(x))));
                        }
                        return Err(x);
                    },
                };
                let ghost m = self.state();
                let ghost lv = out::<HIRExpression>(Ok(l));
                let r = match self.resolve_expression(&right.node) {
                    Ok(r) => r,
                    Err(x) => {
                        proof {
                            assert(witness2(m, lv));
                            assert(witness(out::<HIRExpression>(Err(x))));
                        }
                        return Err(x);
                    },
                };
                let ghost rv = out::<HIRExpression>(Ok(r));
                let res = self.finish_comparison(operator, l, r);
                proof {
                    assert(witness2(m, lv));
                    assert(witness(rv));
                }
                res
            },
            Expression::Logical { operator, left, right } => {
                let l = match self.resolve_expression(&left.node) {
                    Ok(l) => l,
                    Err(x) => {
                        proof {
                            assert(witness2(self.state(), out::<HIRExpression>(Err(x))));
                        }
                        return Err(x);
                    },
                };
                let ghost m = self.state();
                let ghost lv = out::<HIRExpression>(Ok(l));
                let r = match self.resolve_expression(&right.node) {
                    Ok(r) => r,
                    Err(x) => {
                        proof {
                            assert(witness2(m, lv));
                            assert(witness(out::<HIRExpression>(Err(x))));
                        }
                        return Err(x);
                    },
                };
                let ghost rv = out::<HIRExpression>(Ok(r));
                let res = self.finish_logical(operator, l, r);
                proof {
                    assert(witness2(m, lv));
                    assert(witness(rv));
                }
                res
            },
            Expression::Index { parent, index } => {
                let p = match self.resolve_expression(&parent.node) {
                    Ok(p) => p,
                    Err(x) => {
                        proof {
                            assert(witness2(self.state(), out::<HIRExpression>(Err(x))));
                        }
                        return Err(x);
                    },
                };
                let ghost m = self.state();
                let ghost pv = out::<HIRExpression>(Ok(p));
                let i = match self.resolve_expression(&index.node) {
                    Ok(i) => i,
                    Err(x) => {
                        proof {
                            assert(witness2(m, pv));
                            assert(witness(out::<HIRExpression>(Err(x))));
                        }
                        return Err(x);
                    },
                };
                proof {
                    assert(witness2(m, pv));
                    assert(witness(out::<HIRExpression>(Ok(i))));
                }
                Ok(p)
            },
            Expression::Continue { .. } => {
                let hir = match self.desugar.lower_continue() {
                    Ok(h) => h,
                    Err(x) => return Err(ResolveError::DesugarError(x)),
                };
                Ok(Lowered { type_symbol: TypeSymbol::default(), hir })
            },
            Expression::Break { expression, .. } => {
                let (hir, ty) = match expression {
                    Some(v) => match self.resolve_expression(&v.node) {
                        Ok(l) => {
                            proof {
                                assert(witness(out::<HIRExpression>(Ok(l))));
                            }
                            (Some(l.hir), l.type_symbol)
                        },
                        Err(x) => {
                            proof {
                                assert(witness(out::<HIRExpression>(Err(x))));
                            }
                            return Err(x);
                        },
                    },
                    None => (None, TypeSymbol::default()),
                };
                let hir = match self.desugar.lower_break(hir) {
                    Ok(h) => h,
                    Err(x) => return Err(ResolveError::DesugarError(x)),
                };
                Ok(Lowered { type_symbol: ty, hir })
            },
            Expression::Return(value) => {
                let (hir, ty) = match value {
                    Some(v) => match self.resolve_expression(&v.node) {
                        Ok(l) => {
                            proof {
                                assert(witness(out::<HIRExpression>(Ok(l))));
                            }
                            (Some(l.hir), l.type_symbol)
                        },
                        Err(x) => {
                            proof {
                                assert(witness(out::<HIRExpression>(Err(x))));
                            }
                            return Err(x);
                        },
                    },
                    None => (None, TypeSymbol::default()),
                };
                let ty = match self.type_checker.check_return(ty) {
                    Ok(t) => t,
                    Err(x) => return Err(ResolveError::TypeCheckError(x)),
                };
                let hir = match self.desugar.lower_return(hir) {
                    Ok(h) => h,
                    Err(x) => return Err(ResolveError::DesugarError(x)),
                };
                Ok(Lowered { type_symbol: ty, hir })
            },
            _ => self.resolve_compound(e),
        }
    }
}

impl<'a> Resolver<'a> {
    /// Calls, blocks, `if` and loops; see `resolves`.
    #[verifier::loop_isolation(false)]
    fn resolve_compound(&mut self, e: &'a Expression) -> (res: ResolveResult<Lowered<HIRExpression>>)
        requires
            supported(*e),
            old(self).state().next_symbol + demand(*e) <= usize::MAX,
            e is Call || e is Block || e is If || e is Loop,
        ensures
            resolves(*e, old(self).state(), final(self).state(), out(res)),
            old(self).kept(*final(self)),
            final(self).state().next_symbol <= old(self).state().next_symbol + demand(*e),
        decreases e, 0nat,
    {
        let ghost s0 = self.state();
        match e {
            Expression::Call { function, arguments } => {
                let f = match self.resolve_expression(&function.node) {
                    Ok(f) => f,
                    Err(x) => {
                        proof {
                            assert(witness2(self.state(), out::<HIRExpression>(Err(x))));
                        }
                        return Err(x);
                    },
                };
                let ghost m = self.state();
                let ghost fv = out::<HIRExpression>(Ok(f));
                let (tys, hs) = match self.resolve_args(arguments) {
                    Ok(x) => x,
                    Err(x) => {
                        proof {
                            assert(witness2(m, fv));
                            let ar = Err::<Seq<(TypeSymbolView, HIRExpression)>, ResolveError>(x);
                            assert(args_resolve(arguments@, m, self.state(), ar));
                            assert(witness(ar));
                        }
                        return Err(x);
                    },
                };
                let ghost av = pairs(tys@, hs@);
                proof {
                    assert(witness2(m, fv));
                    assert(witness(args_out(Ok((tys, hs)))));
                }
                let mut refs: Vec<&TypeSymbol> = Vec::new();
                let mut i: usize = 0;
                while i < tys.len()
                    invariant
                        i <= tys@.len(),
                        refs@.len() == i,
                    decreases tys@.len() - i,
                {
                    refs.push(&tys[i]);
                    i = i + 1;
                }
                let ty = match self.type_checker.check_function_call(&f.type_symbol, refs.as_slice()) {
                    Ok(t) => t,
                    Err(x) => return Err(ResolveError::TypeCheckError(x)),
                };
                proof {
                    assert(hirs(av) =~= hs@);
                }
                let hir = match self.desugar.lower_call(f.hir, hs) {
                    Ok(h) => h,
                    Err(x) => return Err(ResolveError::DesugarError(x)),
                };
                Ok(Lowered { type_symbol: ty, hir })
            },
            Expression::Block(ss) => {
                if ss.len() == 0 {
                    return Ok(Lowered { type_symbol: TypeSymbol::default(), hir: HIRExpression::Block(HIRBlock { statements: Vec::new() }) });
                }
                let _ = self.name_resolver.on_enter_scope();
                let _ = self.type_checker.on_enter_scope();
                proof {
                    assert(self.name_resolver.scopes().last() == fresh_scope());
                    assert(self.state().scopes =~= s0.scopes.push(fresh_scope()));
                    assert(self.state() == entered(s0));
                }
                let (ty, hs) = match self.resolve_statements(ss) {
                    Ok(x) => x,
                    Err(x) => {
                        proof {
                            assert(witness2(self.state(), stmts_out(Err(x))));
                        }
                        return Err(x);
                    },
                };
                let ghost m = self.state();
                proof {
                    assert(witness2(m, stmts_out(Ok((ty, hs)))));
                }
                match self.type_checker.on_exit_scope() {
                    Ok(()) => {},
                    Err(x) => return Err(ResolveError::TypeCheckError(x)),
                }
                match self.name_resolver.on_exit_scope() {
                    Ok(()) => {},
                    Err(x) => return Err(x),
                }
                Ok(Lowered { type_symbol: ty, hir: HIRExpression::Block(HIRBlock { statements: hs }) })
            },
            Expression::If { condition, then_body, else_body } => {
                let c = match self.resolve_expression(&condition.node) {
                    Ok(c) => c,
                    Err(x) => {
                        proof {
                            assert(witness2(self.state(), out::<HIRExpression>(Err(x))));
                        }
                        return Err(x);
                    },
                };
                let ghost m = self.state();
                let ghost cv = out::<HIRExpression>(Ok(c));
                let t = match self.resolve_expression(&then_body.node) {
                    Ok(t) => t,
                    Err(x) => {
                        proof {
                            assert(witness2(m, cv));
                            assert(witness2(self.state(), out::<HIRExpression>(Err(x))));
                        }
                        return Err(x);
                    },
                };
                let ghost m2 = self.state();
                let ghost tv = out::<HIRExpression>(Ok(t));
                proof {
                    assert(witness2(m, cv));
                    assert(witness2(m2, tv));
                }
                let (eh, et) = match else_body {
                    Some(eb) => match self.resolve_expression(&eb.node) {
                        Ok(l) => {
                            proof {
                                assert(witness(out::<HIRExpression>(Ok(l))));
                            }
                            (Some(l.hir), Some(l.type_symbol))
                        },
                        Err(x) => {
                            proof {
                                assert(witness(out::<HIRExpression>(Err(x))));
                            }
                            return Err(x);
                        },
                    },
                    None => (None, None),
                };
                let ty = match self.type_checker.check_if_statement(c.type_symbol, t.type_symbol, et) {
                    Ok(ty) => ty,
                    Err(x) => return Err(ResolveError::TypeCheckError(x)),
                };
                let else_block = match eh {
                    Some(h) => Some(h.to_block()),
                    None => None,
                };
                let hir = match self.desugar.lower_if_statement(c.hir, t.hir.to_block(), else_block) {
                    Ok(h) => h,
                    Err(x) => return Err(ResolveError::DesugarError(x)),
                };
                Ok(Lowered { type_symbol: ty, hir })
            },
            Expression::Loop(l) => match &l.node {
                LoopExpr::Loop { body } => {
                    let b = match self.resolve_expression(&body.node) {
                        Ok(b) => b,
                        Err(x) => {
                            proof {
                                assert(witness(out::<HIRExpression>(Err(x))));
                            }
                            return Err(x);
                        },
                    };
                    proof {
                        assert(witness(out::<HIRExpression>(Ok(b))));
                    }
                    if self.name_resolver.get_scope().is_none() {
                        return Err(ResolveError::ScopeError(ScopeError::InvalidScope));
                    }
                    let hir = match self.desugar.lower_loop(b.hir.to_block()) {
                        Ok(h) => h,
                        Err(x) => return Err(ResolveError::DesugarError(x)),
                    };
                    Ok(Lowered { type_symbol: TypeSymbol::default(), hir })
                },
                LoopExpr::While { condition, body } => {
                    let c = match self.resolve_expression(&condition.node) {
                        Ok(c) => c,
                        Err(x) => {
                            proof {
                                assert(witness2(self.state(), out::<HIRExpression>(Err(x))));
                            }
                            return Err(x);
                        },
                    };
                    let ghost m = self.state();
                    let ghost cv = out::<HIRExpression>(Ok(c));
                    let b = match self.resolve_expression(&body.node) {
                        Ok(b) => b,
                        Err(x) => {
                            proof {
                                assert(witness2(m, cv));
                                assert(witness(out::<HIRExpression>(Err(x))));
                            }
                            return Err(x);
                        },
                    };
                    proof {
                        assert(witness2(m, cv));
                        assert(witness(out::<HIRExpression>(Ok(b))));
                    }
                    if self.name_resolver.get_scope().is_none() {
                        return Err(ResolveError::ScopeError(ScopeError::InvalidScope));
                    }
                    let hir = match self.desugar.lower_while(c.hir, b.hir.to_block()) {
                        Ok(h) => h,
                        Err(x) => return Err(ResolveError::DesugarError(x)),
                    };
                    Ok(Lowered { type_symbol: TypeSymbol::default(), hir })
                },
                LoopExpr::For { .. } => vstd::pervasive::unreached(),
            },
            _ => vstd::pervasive::unreached(),
        }
    }

    /// Call arguments, left to right; see `args_resolve`.
    #[verifier::loop_isolation(false)]
    fn resolve_args(&mut self, args: &'a Vec<SpannedBox<Expression>>) -> (res: ResolveResult<(Vec<TypeSymbol>, Vec<HIRExpression>)>)
        requires
            supported_args(args@),
            old(self).state().next_symbol + demand_args(args@) <= usize::MAX,
        ensures
            args_resolve(args@, old(self).state(), final(self).state(), args_out(res)),
            res matches Ok((tys, hs)) ==> tys@.len() == hs@.len(),
            old(self).kept(*final(self)),
            final(self).state().next_symbol <= old(self).state().next_symbol + demand_args(args@),
        decreases args, 1nat,
    {
        let ghost s0 = self.state();
        let mut tys: Vec<TypeSymbol> = Vec::new();
        let mut hs: Vec<HIRExpression> = Vec::new();
        let mut i: usize = 0;
        proof {
            assert(args@.take(0) =~= Seq::<SpannedBox<Expression>>::empty());
            assert(pairs(tys@, hs@) =~= Seq::<(TypeSymbolView, HIRExpression)>::empty());
        }
        while i < args.len()
            invariant
                i <= args@.len(),
                tys@.len() == i,
                hs@.len() == i,
                args_resolve(args@.take(i as int), s0, self.state(), Ok(pairs(tys@, hs@))),
                old(self).kept(*self),
                self.state().next_symbol <= s0.next_symbol + demand_args(args@.take(i as int)),
            decreases args@.len() - i,
        {
            proof {
                lemma_args_prefix(args@, i as int + 1);
                assert(args@.take(i + 1).drop_last() =~= args@.take(i as int));
                assert(args@.take(i + 1)[i as int] == args@[i as int]);
            }
            let ghost m = self.state();
            let ghost before = pairs(tys@, hs@);
            let l = match self.resolve_expression(&args[i].node) {
                Ok(l) => l,
                Err(x) => {
                    proof {
                        assert(witness2(m, Ok::<Seq<(TypeSymbolView, HIRExpression)>, ResolveError>(before)));
                        assert(witness(out::<HIRExpression>(Err(x))));
                        assert(args_resolve(args@.take(i + 1), s0, self.state(), Err(x)));
                        lemma_args_err(args@, i as int + 1, s0, self.state(), x);
                    }
                    return Err(x);
                },
            };
            let ghost lv = out::<HIRExpression>(Ok(l));
            let Lowered { type_symbol, hir } = l;
            tys.push(type_symbol);
            hs.push(hir);
            proof {
                assert(pairs(tys@, hs@) =~= before.push(lv->Ok_0));
                assert(witness2(m, Ok::<Seq<(TypeSymbolView, HIRExpression)>, ResolveError>(before)));
                assert(witness(lv));
            }
            i = i + 1;
        }
        proof {
            assert(args@.take(args@.len() as int) =~= args@);
        }
        Ok((tys, hs))
    }
}

impl<'a> Resolver<'a> {
    /// Statements in order; see `stmts_resolve`.
    #[verifier::loop_isolation(false)]
    fn resolve_statements(&mut self, ss: &'a Vec<Spanned<Statement>>) -> (res: ResolveResult<(TypeSymbol, Vec<HIRStatement>)>)
        requires
            supported_stmts(ss@),
            old(self).state().next_symbol + demand_stmts(ss@) <= usize::MAX,
        ensures
            stmts_resolve(ss@, old(self).state(), final(self).state(), stmts_out(res)),
            old(self).kept(*final(self)),
            final(self).state().next_symbol <= old(self).state().next_symbol + demand_stmts(ss@),
        decreases ss, 1nat,
    {
        let ghost s0 = self.state();
        let mut ty = TypeSymbol::default();
        let mut hs: Vec<HIRStatement> = Vec::new();
        let mut i: usize = 0;
        proof {
            assert(ss@.take(0) =~= Seq::<Spanned<Statement>>::empty());
        }
        while i < ss.len()
            invariant
                i <= ss@.len(),
                stmts_resolve(ss@.take(i as int), s0, self.state(), Ok((ty@, hs@))),
                old(self).kept(*self),
                self.state().next_symbol <= s0.next_symbol + demand_stmts(ss@.take(i as int)),
            decreases ss@.len() - i,
        {
            proof {
                lemma_stmts_prefix(ss@, i as int + 1);
                assert(ss@.take(i + 1).drop_last() =~= ss@.take(i as int));
                assert(ss@.take(i + 1)[i as int] == ss@[i as int]);
            }
            let ghost m = self.state();
            let ghost before = (ty@, hs@);
            let r = self.resolve_statement(&ss[i].node);
            proof {
                assert(witness2(m, Ok::<(TypeSymbolView, Seq<HIRStatement>), ResolveError>(before)));
                assert(witness(stmt_out(r)));
            }
            match r {
                Ok(Some(l)) => {
                    let Lowered { type_symbol, hir } = l;
                    ty = type_symbol;
                    hs.push(hir);
                },
                Ok(None) => {},
                Err(x) => {
                    proof {
                        assert(stmts_resolve(ss@.take(i + 1), s0, self.state(), Err(x)));
                        lemma_stmts_err(ss@, i as int + 1, s0, self.state(), x);
                    }
                    return Err(x);
                },
            }
            i = i + 1;
        }
        proof {
            assert(ss@.take(ss@.len() as int) =~= ss@);
        }
        Ok((ty, hs))
    }

    /// One statement; see `stmt_resolves`.
    fn resolve_statement(&mut self, st: &'a Statement) -> (res: ResolveResult<Option<Lowered<HIRStatement>>>)
        requires
            supported_stmt(*st),
            old(self).state().next_symbol + demand_stmt(*st) <= usize::MAX,
        ensures
            stmt_resolves(*st, old(self).state(), final(self).state(), stmt_out(res)),
            old(self).kept(*final(self)),
            final(self).state().next_symbol <= old(self).state().next_symbol + demand_stmt(*st),
        decreases st, 1nat,
    {
        let ghost s0 = self.state();
        match st {
            Statement::Semicolon => Ok(None),
            Statement::Expression(x) => {
                let r = self.resolve_expression(&x.node);
                proof {
                    assert(witness(out(r)));
                }
                match r {
                    Ok(l) => Ok(Some(Lowered { type_symbol: l.type_symbol, hir: l.hir.to_statement() })),
                    Err(x) => Err(x),
                }
            },
            Statement::Let { name, variable_type, initializer, .. } => {
                let vt: Option<TypeSymbol> = match variable_type {
                    Some(v) => match self.resolve_type(&v.node) {
                        Ok(t) => {
                            proof {
                                assert(type_out(v.node, s0, Ok::<TypeSymbolView, ResolveError>(t@)));
                            }
                            Some(t)
                        },
                        Err(x) => {
                            proof {
                                assert(type_out(v.node, s0, Err::<TypeSymbolView, ResolveError>(x)));
                                assert(vtype_out(*variable_type, s0, Err(x)));
                                assert(witness(Err::<Option<TypeSymbolView>, ResolveError>(x)));
                            }
                            return Err(x);
                        },
                    },
                    None => None,
                };
                let ghost vtv = opt_symbol_view(vt);
                proof {
                    assert(vtype_out(*variable_type, s0, Ok::<Option<TypeSymbolView>, ResolveError>(vtv)));
                    assert(witness(Ok::<Option<TypeSymbolView>, ResolveError>(vtv)));
                }
                let (ih, it): (Option<HIRExpression>, Option<TypeSymbol>) = match initializer {
                    Some(x) => match self.resolve_expression(&x.node) {
                        Ok(l) => {
                            proof {
                                assert(witness(out::<HIRExpression>(Ok(l))));
                            }
                            (Some(l.hir), Some(l.type_symbol))
                        },
                        Err(x) => {
                            proof {
                                assert(witness(out::<HIRExpression>(Err(x))));
                                assert(witness2(self.state(), Err::<(TypeSymbolView, Option<HIRExpression>), ResolveError>(x)));
                            }
                            return Err(x);
                        },
                    },
                    None => (None, None),
                };
                let ghost m1 = self.state();
                let ghost itv = opt_symbol_view(it);
                let ghost ir = Ok::<(TypeSymbolView, Option<HIRExpression>), ResolveError>((
                    match itv {
                        Some(t) => t,
                        None => TypeSymbolView::unit(),
                    },
                    ih,
                ));
                proof {
                    assert(init_resolves(*initializer, s0, m1, ir));
                    assert(witness2(m1, ir));
                }
                let known: Option<&TypeSymbol> = match &vt {
                    Some(t) => Some(t),
                    None => match &it {
                        Some(t) => Some(t),
                        None => None,
                    },
                };
                proof {
                    assert(known_view(known) == or_else(vtv, itv));
                }
                let pr = self.resolve_pattern(&name.node, known);
                let pr = match pr {
                    Ok(_) => Ok(()),
                    Err(e) => Err(e),
                };
                let ghost m2 = self.state();
                proof {
                    assert(itv == (if ih is Some { Some(ir->Ok_0.0) } else { None::<TypeSymbolView> }));
                    assert(pattern_out(name.node, or_else(vtv, itv), m1, m2, pr));
                    assert(witness2(m2, pr));
                }
                match pr {
                    Ok(()) => {},
                    Err(x) => return Err(x),
                }
                let scope = match self.name_resolver.get_scope() {
                    Some(sc) => sc,
                    None => return Err(ResolveError::ScopeError(ScopeError::InvalidScope)),
                };
                let checked = self.type_checker.check_let_statenent(scope, &name.node, it, vt);
                let ty = match checked {
                    Ok(Some(t)) => t,
                    Ok(None) => vstd::pervasive::unreached(),
                    Err(x) => {
                        proof {
                            assert(let_check(scope@, name.node, itv, vtv, Err::<TypeSymbolView, ResolveError>(ResolveError::TypeCheckError(x))));
                            assert(witness(Err::<TypeSymbolView, ResolveError>(ResolveError::TypeCheckError(x))));
                        }
                        return Err(ResolveError::TypeCheckError(x));
                    },
                };
                proof {
                    assert(let_check(scope@, name.node, itv, vtv, Ok::<TypeSymbolView, ResolveError>(ty@)));
                    assert(witness(Ok::<TypeSymbolView, ResolveError>(ty@)));
                }
                let lowered = match self.desugar.lower_let_statement(&name.node, ih) {
                    Ok(h) => h,
                    Err(x) => return Err(ResolveError::DesugarError(x)),
                };
                match lowered {
                    Some(stmt) => Ok(Some(Lowered { type_symbol: ty, hir: stmt })),
                    None => Ok(None),
                }
            },
            Statement::Item(_) => vstd::pervasive::unreached(),
        }
    }

    /// A written type, which must not be a function type; see `type_out`.
    #[verifier::loop_isolation(false)]
    pub(crate) fn resolve_type(&mut self, tk: &'a TypeKind) -> (res: ResolveResult<TypeSymbol>)
        ensures
            type_out(*tk, old(self).state(), type_res(res)),
            final(self).state() == old(self).state(),
            old(self).kept(*final(self)),
        decreases tk,
    {
        let ghost s0 = self.state();
        let scope = match self.name_resolver.get_scope() {
            Some(sc) => sc,
            None => return Err(ResolveError::ScopeError(ScopeError::InvalidScope)),
        };
        let ty = match self.type_checker.check_type(scope, tk) {
            Ok(t) => t,
            Err(e) => return Err(ResolveError::TypeCheckError(e)),
        };
        match tk {
            TypeKind::PathType(p) => {
                let pr = self.resolve_path(&p.node);
                proof {
                    assert(path_out(*p.node, s0, out(pr)));
                }
                match pr {
                    Ok(_) => {},
                    Err(e) => return Err(e),
                }
            },
            TypeKind::Function { params, return_type } => {
                let mut i: usize = 0;
                proof {
                    assert(params@.take(0) =~= Seq::<Spanned<TypeKind>>::empty());
                }
                while i < params.len()
                    invariant
                        i <= params@.len(),
                        self.state() == s0,
                        old(self).kept(*self),
                        types_out(params@.take(i as int), s0, Ok::<(), ResolveError>(())),
                    decreases params@.len() - i,
                {
                    proof {
                        assert(params@.take(i + 1).drop_last() =~= params@.take(i as int));
                        assert(params@.take(i + 1)[i as int] == params@[i as int]);
                        assert(witness(Ok::<(), ResolveError>(())));
                    }
                    let r = self.resolve_type(&params[i].node);
                    let ghost rv = type_res(r);
                    proof {
                        assert(witness(rv));
                    }
                    match r {
                        Ok(_) => {},
                        Err(e) => {
                            proof {
                                assert(types_out(params@.take(i + 1), s0, Err::<(), ResolveError>(e)));
                                lemma_types_err(params@, i as int + 1, s0, e);
                                assert(witness(Err::<(), ResolveError>(e)));
                            }
                            return Err(e);
                        },
                    }
                    i = i + 1;
                }
                proof {
                    assert(params@.take(params@.len() as int) =~= params@);
                    assert(witness(Ok::<(), ResolveError>(())));
                }
                let r = self.resolve_type(&return_type.node);
                let ghost rv = type_res(r);
                proof {
                    assert(witness(rv));
                }
                match r {
                    Ok(_) => {},
                    Err(e) => return Err(e),
                }
            },
            _ => {},
        }
        Ok(ty)
    }

    /// Binds a `let` pattern; see `pattern_out`.
    pub(crate) fn resolve_pattern(&mut self, pattern: &'a Pattern, known: Option<&TypeSymbol>) -> (res: ResolveResult<usize>)
        requires
            !(*pattern is Multiply),
            *pattern matches Pattern::Literal(l) ==> lowerable_literal(l),
            old(self).state().next_symbol < usize::MAX,
        ensures
            pattern_out(*pattern, known_view(known), old(self).state(), final(self).state(), unit_of(res)),
            res matches Ok(id) ==> id == old(self).state().next_symbol,
            old(self).kept(*final(self)),
    {
        let ghost s0 = self.state();
        let id = self.desugar.alloc_symbol();
        let ghost s1 = self.state();
        match pattern {
            Pattern::Identifier { ident, mutable, reference } => {
                let option = TypeOption { mutable: *mutable, reference: *reference };
                let ty = match known {
                    Some(t) => TypeRequirement::Expect(TypeSymbol { type_kind: t.type_kind.deep_clone(), option }),
                    None => TypeRequirement::Inferring(option),
                };
                proof {
                    assert(ty@ == requirement(known_view(known), option));
                }
                match self.name_resolver.add_variable(SymbolId(id), ident.as_str(), ty) {
                    Ok(()) => Ok(id),
                    Err(e) => Err(e),
                }
            },
            Pattern::Literal(lit) => {
                let r = self.resolve_literal(lit);
                proof {
                    assert(literal_out(*lit, s1, out(r)));
                }
                match r {
                    Ok(_) => Ok(id),
                    Err(e) => Err(e),
                }
            },
            _ => Ok(id),
        }
    }
}

/// A `let` that binds a name, once resolved, declares the name in the innermost scope as a
/// variable of the statement's type, with the options written in the pattern; a path that
/// ends in that name, read next, gives that variable with that type.
pub proof fn law_let_then_read<'a>(
    name: Spanned<Pattern>,
    variable_type: Option<Spanned<TypeKind>>,
    label: Option<String>,
    initializer: Option<SpannedBox<Expression>>,
    s: RState<'a>,
    t: RState<'a>,
    ty: TypeSymbolView,
    h: HIRStatement,
    p: Path,
    pr: Out<Option<HIRExpression>>,
)
    requires
        stmt_resolves(Statement::Let { name, variable_type, label, initializer }, s, t, Ok(Some((ty, h)))),
        name.node is Identifier,
        path_last_ident(p) == name.node->ident@,
        path_out(p, t, pr),
    ensures
        variable_of(t, name.node->ident@) is Some,
        type_of_name(t, name.node->ident@) == Some(
            TypeSymbolView {
                type_kind: ty.type_kind,
                option: TypeOption { mutable: name.node->mutable, reference: name.node->reference },
            },
        ),
        pr matches Ok((pt, Some(HIRExpression::Variable { id, symbol_type }))) && variable_of(t, name.node->ident@)
            == Some(id) && pt.type_kind == ty.type_kind && symbol_type@ == ty.type_kind,
{
}

} // verus!
