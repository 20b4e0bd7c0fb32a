use super::name_resolver::{name_space_of, NameResolver};
use super::resolver::{demand, out, resolves, supported, RState, Resolver};
use super::{Lowered, ResolveError, ResolveResult};
use crate::ast::{ASTNode, EnumItem as AstEnumItem, Expression, FunctionParam, Item, Path, Pattern, StructField, TypeKind, SpannedBox};
use crate::cache::LinearAllocator;
use crate::hir::{FunctionId, FunctionType, HIRExpression, HIRFunction, HIRModule, HIRStatement, SymbolId};
use crate::name_space::errors::NameSpaceError;
use crate::name_space::{EnumItem, FunctionItem, ItemStore, ItemStoreReader, StructItem};
use crate::primitive::PrimitiveType;
use crate::scope::errors::ScopeError;
use crate::scope::{ScopeControl, TypeSymbol, TypeSymbolView};
use crate::span::Spanned;
use vstd::prelude::*;

verus! {

/// The item that an AST node holds.
pub open spec fn node_item(n: ASTNode) -> Option<Item> {
    match n {
        ASTNode::Item { item, .. } => Some(item.node),
        _ => None,
    }
}

/// A parameter binds a name.
pub open spec fn param_ok(p: FunctionParam) -> bool {
    p.pattern matches Some(pt) && pt.node is Identifier
}

/// The items that resolution handles: functions whose parameters bind names and whose
/// bodies `supported` admits, and any structure, enumeration or union.
pub open spec fn item_ok(i: Item) -> bool {
    match i {
        Item::Function { params, body, .. } => {
            &&& forall|k: int| 0 <= k < params@.len() ==> param_ok(#[trigger] params@[k].node)
            &&& (body matches Some(b) ==> supported(*b.node))
        },
        _ => true,
    }
}

pub open spec fn items_ok(items: Seq<&ASTNode>) -> bool {
    forall|k: int| 0 <= k < items.len() ==> (#[trigger] node_item(*items[k]) matches Some(it) && item_ok(it))
}

/// How many variable numbers resolving an item can take: one for each parameter, and what
/// its body takes.
pub open spec fn item_demand(i: Option<Item>) -> nat {
    match i {
        Some(Item::Function { params, body, .. }) => params@.len() + match body {
            Some(b) => demand(*b.node),
            None => 0,
        },
        _ => 0,
    }
}

pub open spec fn items_demand(items: Seq<&ASTNode>) -> nat
    decreases items.len(),
{
    if items.len() == 0 {
        0
    } else {
        items_demand(items.drop_last()) + item_demand(node_item(*items[items.len() - 1]))
    }
}

/// A function of the module lowered from `body`: its body block holds what resolving `body`
/// gave, from some state of the resolver.
pub open spec fn lowered_from(f: HIRFunction, body: Expression) -> bool {
    exists|sa: RState, sb: RState, ty: TypeSymbolView, h: HIRExpression|
        #![trigger resolves(body, sa, sb, Ok::<(TypeSymbolView, HIRExpression), ResolveError>((ty, h)))]
        resolves(body, sa, sb, Ok::<(TypeSymbolView, HIRExpression), ResolveError>((ty, h))) && f.body.statements@
            == seq![HIRStatement::Expr(h)]
}

/// The body of an item that is a function with a body.
pub open spec fn item_bodies(i: Option<Item>) -> Seq<Expression> {
    match i {
        Some(Item::Function { body: Some(b), .. }) => seq![*b.node],
        _ => Seq::empty(),
    }
}

/// The bodies of the items that are functions with a body, in order.
pub open spec fn bodies(items: Seq<&ASTNode>) -> Seq<Expression>
    decreases items.len(),
{
    if items.len() == 0 {
        Seq::empty()
    } else {
        bodies(items.drop_last()) + item_bodies(node_item(*items[items.len() - 1]))
    }
}

/// The functions of a module, from `start` on, lowered one by one from the bodies.
pub open spec fn lowered_all(fs: Seq<(FunctionId, HIRFunction)>, start: int, bs: Seq<Expression>) -> bool {
    &&& fs.len() == start + bs.len()
    &&& forall|k: int| 0 <= k < bs.len() ==> #[trigger] lowered_from(fs[start + k].1, bs[k])
}

/// Whether an item is a function with a body, which lowers to a function of the module.
pub open spec fn bodied(i: Option<Item>) -> nat {
    match i {
        Some(Item::Function { body: Some(_), .. }) => 1,
        _ => 0,
    }
}

pub open spec fn bodied_count(items: Seq<&ASTNode>) -> nat
    decreases items.len(),
{
    if items.len() == 0 {
        0
    } else {
        bodied_count(items.drop_last()) + bodied(node_item(*items[items.len() - 1]))
    }
}

/// Functions lowered from the first bodies, followed by functions lowered from the next
/// ones, are lowered from all of them.
proof fn lemma_lowered_extend(
    fs0: Seq<(FunctionId, HIRFunction)>,
    fs1: Seq<(FunctionId, HIRFunction)>,
    start: int,
    b0: Seq<Expression>,
    b1: Seq<Expression>,
)
    requires
        0 <= start,
        lowered_all(fs0, start, b0),
        fs1.take(fs0.len() as int) == fs0,
        lowered_all(fs1, fs0.len() as int, b1),
    ensures
        lowered_all(fs1, start, b0 + b1),
{
    let b = b0 + b1;
    assert forall|k: int| 0 <= k < b.len() implies #[trigger] lowered_from(fs1[start + k].1, b[k]) by {
        if k < b0.len() {
            assert(fs1[start + k] == fs1.take(fs0.len() as int)[start + k]);
            assert(lowered_from(fs0[start + k].1, b0[k]));
        } else {
            let j = k - b0.len();
            assert(lowered_from(fs1[fs0.len() + j].1, b1[j]));
            assert(fs0.len() + j == start + k);
        }
    }
}

proof fn lemma_items_demand_prefix(items: Seq<&ASTNode>, i: int)
    requires
        0 <= i <= items.len(),
    ensures
        items_demand(items.take(i)) <= items_demand(items),
    decreases items.len() - i,
{
    if i < items.len() {
        lemma_items_demand_prefix(items, i + 1);
        assert(items.take(i + 1).drop_last() =~= items.take(i));
    } else {
        assert(items.take(i) =~= items);
    }
}

impl<'a> Resolver<'a> {
    /// Whether the resolver is in a state to resolve items: functions are numbered by a
    /// well-formed allocator.
    pub open spec fn ready(&self) -> bool {
        self.desugar.wf()
    }

    /// A type named in a signature: a primitive type as written, a path by its last name,
    /// a primitive type name first and then a type of the scopes or the module; a function
    /// type has its parts imported and stands as `()`.
    #[verifier::loop_isolation(false)]
    fn import_type(&mut self, tk: &'a TypeKind) -> (res: ResolveResult<TypeSymbol>)
        ensures
            *final(self) == *old(self),
        decreases tk,
    {
        let scope = match self.name_resolver.get_scope() {
            Some(sc) => sc,
            None => return Err(ResolveError::ScopeError(ScopeError::InvalidScope)),
        };
        match tk {
            TypeKind::Primitive(_) => match self.type_checker.check_type(scope, tk) {
                Ok(t) => Ok(t),
                Err(e) => Err(ResolveError::TypeCheckError(e)),
            },
            TypeKind::PathType(p) => self.import_path(&p.node),
            TypeKind::Function { params, return_type } => {
                let mut i: usize = 0;
                while i < params.len()
                    invariant
                        *self == *old(self),
                    decreases params@.len() - i,
                {
                    match self.import_type(&params[i].node) {
                        Ok(_) => {},
                        Err(e) => return Err(e),
                    }
                    i = i + 1;
                }
                match self.import_type(&return_type.node) {
                    Ok(_) => {},
                    Err(e) => return Err(e),
                }
                Ok(TypeSymbol::default())
            },
        }
    }

    fn import_path(&self, path: &'a Path) -> (res: ResolveResult<TypeSymbol>) {
        let name = path.last_ident();
        if let Some(t) = PrimitiveType::from(name) {
            return Ok(TypeSymbol::new(t));
        }
        match self.name_resolver.get_type(name) {
            Some(t) => Ok(t.clone()),
            None => Err(ResolveError::UnresolveType { name: name.to_string() }),
        }
    }

    /// Adds a structure with its fields to the module, and records its name.
    fn import_struct(&mut self, name: &'a str, fields: &'a Vec<Spanned<StructField>>) -> (res: ResolveResult<()>)
        requires
            old(self).ready(),
        ensures
            final(self).ready(),
            final(self).state().scopes == old(self).state().scopes,
            final(self).state().next_symbol == old(self).state().next_symbol,
            final(self).desugar.module() == old(self).desugar.module(),
            final(self).name_resolver.path() == old(self).name_resolver.path(),
            final(self).type_checker@ == old(self).type_checker@,
    {
        let mut item = StructItem::new(name);
        let mut i: usize = 0;
        while i < fields.len()
            invariant
                *self == *old(self),
                old(self).ready(),
            decreases fields@.len() - i,
        {
            let field = &fields[i].node;
            let t = match self.import_type(&field.field_type.node) {
                Ok(t) => t,
                Err(e) => return Err(e),
            };
            match item.add_field(field.name.as_str(), t) {
                Ok(()) => {},
                Err(e) => return Err(ResolveError::NameSpaceError(e)),
            }
            i = i + 1;
        }
        match self.name_resolver.add_struct(item) {
            Ok(()) => {},
            Err(e) => return Err(e),
        }
        self.collector.insert(name)
    }

    /// Numbers a function, adds it with its signature to the module, and records its name.
    fn import_function(&mut self, name: &'a str, params: &'a Vec<Spanned<FunctionParam>>, return_type: &'a Option<Spanned<TypeKind>>) -> (res: ResolveResult<()>)
        requires
            forall|k: int| 0 <= k < params@.len() ==> param_ok(#[trigger] params@[k].node),
            old(self).ready(),
        ensures
            final(self).ready(),
            final(self).state().scopes == old(self).state().scopes,
            final(self).state().next_symbol == old(self).state().next_symbol,
            final(self).desugar.module() == old(self).desugar.module(),
            final(self).name_resolver.path() == old(self).name_resolver.path(),
            final(self).type_checker@ == old(self).type_checker@,
    {
        let ret = match return_type {
            Some(r) => match self.import_type(&r.node) {
                Ok(t) => t,
                Err(e) => return Err(e),
            },
            None => TypeSymbol::default(),
        };
        let id = self.desugar.alloc_function(name.to_string());
        let mut item = FunctionItem::new(id, name, ret);
        let mut i: usize = 0;
        while i < params.len()
            invariant
                self.ready(),
                self.state().scopes == old(self).state().scopes,
                self.state().next_symbol == old(self).state().next_symbol,
                self.desugar.module() == old(self).desugar.module(),
                self.name_resolver.path() == old(self).name_resolver.path(),
                self.type_checker@ == old(self).type_checker@,
                forall|k: int| 0 <= k < params@.len() ==> param_ok(#[trigger] params@[k].node),
            decreases params@.len() - i,
        {
            let t = match self.import_type(&params[i].node.param_type.node) {
                Ok(t) => t,
                Err(e) => return Err(e),
            };
            let _ = item.add_argument(t);
            i = i + 1;
        }
        match self.name_resolver.add_function(item) {
            Ok(()) => {},
            Err(e) => return Err(e),
        }
        self.collector.insert(name)
    }

    /// Adds an enumeration with its variants to the module, and records its name.
    fn import_enumeration(&mut self, name: &'a str, items: &'a Vec<Spanned<AstEnumItem>>) -> (res: ResolveResult<()>)
        requires
            old(self).ready(),
        ensures
            final(self).ready(),
            final(self).state().scopes == old(self).state().scopes,
            final(self).state().next_symbol == old(self).state().next_symbol,
            final(self).desugar.module() == old(self).desugar.module(),
            final(self).name_resolver.path() == old(self).name_resolver.path(),
            final(self).type_checker@ == old(self).type_checker@,
    {
        let mut e = EnumItem::new(name);
        let mut i: usize = 0;
        while i < items.len()
            invariant
                *self == *old(self),
                old(self).ready(),
            decreases items@.len() - i,
        {
            match &items[i].node {
                AstEnumItem::StructItem { name: variant, fields, .. } => {
                    let mut j: usize = 0;
                    while j < fields.len()
                        invariant
                            *self == *old(self),
                            old(self).ready(),
                old(self).ready(),
                        decreases fields@.len() - j,
                    {
                        let field = &fields[j].node;
                        let t = match self.import_type(&field.field_type.node) {
                            Ok(t) => t,
                            Err(x) => return Err(x),
                        };
                        match e.add_variant_field(variant.as_str(), field.name.as_str(), t) {
                            Ok(()) => {},
                            Err(x) => return Err(ResolveError::NameSpaceError(x)),
                        }
                        j = j + 1;
                    }
                },
                AstEnumItem::TupleItem { name: variant, .. } => match e.add_variant(variant.as_str()) {
                    Ok(()) => {},
                    Err(x) => return Err(ResolveError::NameSpaceError(x)),
                },
            }
            i = i + 1;
        }
        match self.name_resolver.add_enumeration(e) {
            Ok(()) => {},
            Err(x) => return Err(x),
        }
        self.collector.insert(name)
    }

    /// Adds an item's signature to the module.
    fn import_item(&mut self, item: &'a Item) -> (res: ResolveResult<()>)
        requires
            item_ok(*item),
            old(self).ready(),
        ensures
            final(self).ready(),
            final(self).state().scopes == old(self).state().scopes,
            final(self).state().next_symbol == old(self).state().next_symbol,
            final(self).desugar.module() == old(self).desugar.module(),
            final(self).name_resolver.path() == old(self).name_resolver.path(),
            final(self).type_checker@ == old(self).type_checker@,
    {
        match item {
            Item::Struct { name, fields } => self.import_struct(name.as_str(), fields),
            Item::Function { name, params, return_type, .. } => self.import_function(name.as_str(), params, return_type),
            Item::Enumeration { name, items } => self.import_enumeration(name.as_str(), items),
            Item::Union { name, .. } => self.collector.insert(name.as_str()),
        }
    }
}

impl<'a> Resolver<'a> {
    /// Resolves a function: its signature is imported unless it was, and a body is resolved
    /// inside the function, with its parameters as the variables of a new block, and added to
    /// the module.
    #[verifier::loop_isolation(false)]
    fn resolve_function(
        &mut self,
        name: &'a str,
        params: &'a Vec<Spanned<FunctionParam>>,
        return_type: &'a Option<Spanned<TypeKind>>,
        body: &'a Option<SpannedBox<Expression>>,
    ) -> (res: ResolveResult<()>)
        requires
            forall|k: int| 0 <= k < params@.len() ==> param_ok(#[trigger] params@[k].node),
            body matches Some(b) ==> supported(*b.node),
            old(self).ready(),
            old(self).state().next_symbol + params@.len() + match body {
                Some(b) => demand(*b.node),
                None => 0,
            } <= usize::MAX,
        ensures
            final(self).ready(),
            final(self).name_resolver.path() == old(self).name_resolver.path(),
            final(self).state().next_symbol <= old(self).state().next_symbol + params@.len() + match body {
                Some(b) => demand(*b.node),
                None => 0,
            },
            res is Ok ==> final(self).desugar.module().functions@.len() == old(self).desugar.module().functions@.len() + if body is Some {
                1int
            } else {
                0
            },
            res is Ok && body is None ==> final(self).desugar.module().functions@ == old(self).desugar.module().functions@,
            res is Ok ==> (body matches Some(b) ==> final(self).desugar.module().functions@.drop_last()
                == old(self).desugar.module().functions@ && lowered_from(
                final(self).desugar.module().functions@.last().1,
                *b.node,
            )),
    {
        if !self.collector.remove(name) {
            match self.import_function(name, params, return_type) {
                Ok(()) => {},
                Err(e) => return Err(e),
            }
        }
        let f = match self.name_resolver.get_function(name) {
            Some(f) => f.clone(),
            None => return Err(ResolveError::NameSpaceError(NameSpaceError::UnresolvedFunction { name: name.to_string() })),
        };
        let body = match body {
            Some(b) => b,
            None => return Ok(()),
        };
        // The signature in the name space is the one imported from these parameters.
        if f.arguments.len() != params.len() {
            return Err(ResolveError::NameSpaceError(NameSpaceError::UnresolvedFunction { name: name.to_string() }));
        }
        let ghost s0 = self.state();
        let ghost module0 = self.desugar.module();
        self.type_checker.enter_function(f.return_type.clone());
        let _ = self.name_resolver.on_enter_scope();
        let _ = self.type_checker.on_enter_scope();
        let mut args: Vec<(SymbolId, PrimitiveType)> = Vec::new();
        let mut i: usize = 0;
        while i < params.len()
            invariant
                i <= params@.len(),
                f.arguments@.len() == params@.len(),
                self.ready(),
                self.name_resolver.path() == old(self).name_resolver.path(),
                self.desugar.module() == module0,
                self.state().next_symbol == s0.next_symbol + i,
            decreases params@.len() - i,
        {
            let pattern = match &params[i].node.pattern {
                Some(p) => p,
                None => vstd::pervasive::unreached(),
            };
            let id = match self.resolve_pattern(&pattern.node, Some(&f.arguments[i])) {
                Ok(id) => id,
                Err(e) => return Err(e),
            };
            args.push((SymbolId(id), f.arguments[i].type_kind.deep_clone()));
            i = i + 1;
        }
        let lowered_body = match self.resolve_expression(&body.node) {
            Ok(l) => l,
            Err(e) => return Err(e),
        };
        let ghost h = lowered_body.hir;
        let ghost lb = out::<HIRExpression>(Ok(lowered_body));
        let function = match self.desugar.lower_function(
            FunctionId { id: FunctionType::UserDefined(f.id) },
            args,
            f.return_type.type_kind.deep_clone(),
            lowered_body.hir.to_block(),
        ) {
            Ok(h) => h,
            Err(e) => return Err(ResolveError::DesugarError(e)),
        };
        match self.type_checker.on_exit_scope() {
            Ok(()) => {},
            Err(e) => return Err(ResolveError::TypeCheckError(e)),
        }
        match self.name_resolver.on_exit_scope() {
            Ok(()) => {},
            Err(e) => return Err(e),
        }
        match self.type_checker.check_return(f.return_type.clone()) {
            Ok(_) => {},
            Err(e) => return Err(ResolveError::TypeCheckError(e)),
        }
        self.type_checker.exit_function();
        let ghost fun = function;
        self.desugar.add_function_to_module(FunctionId { id: FunctionType::UserDefined(f.id) }, function);
        proof {
            assert(self.desugar.module().functions@.drop_last() =~= module0.functions@);
            assert(fun.body.statements@ == seq![HIRStatement::Expr(h)]);
            assert(lowered_from(fun, *body.node));
        }
        Ok(())
    }

    /// Resolves an item: a function as `resolve_function` does; a structure or an
    /// enumeration is imported unless it was; a union's field types are resolved.
    #[verifier::loop_isolation(false)]
    fn resolve_item(&mut self, item: &'a Item) -> (res: ResolveResult<()>)
        requires
            item_ok(*item),
            old(self).ready(),
            old(self).state().next_symbol + item_demand(Some(*item)) <= usize::MAX,
        ensures
            final(self).ready(),
            final(self).name_resolver.path() == old(self).name_resolver.path(),
            final(self).state().next_symbol <= old(self).state().next_symbol + item_demand(Some(*item)),
            res is Ok ==> final(self).desugar.module().functions@.len() == old(self).desugar.module().functions@.len()
                + bodied(Some(*item)),
            res is Ok ==> final(self).desugar.module().functions@.take(old(self).desugar.module().functions@.len() as int)
                == old(self).desugar.module().functions@ && lowered_all(
                final(self).desugar.module().functions@,
                old(self).desugar.module().functions@.len() as int,
                item_bodies(Some(*item)),
            ),
    {
        match item {
            Item::Function { name, params, return_type, body } => {
                let ghost before = self.desugar.module().functions@;
                let r = self.resolve_function(name.as_str(), params, return_type, body);
                proof {
                    if r is Ok {
                        let fs = self.desugar.module().functions@;
                        match body {
                            Some(b) => {
                                assert(fs.take(before.len() as int) =~= fs.drop_last());
                                assert(item_bodies(Some(*item)) =~= seq![*b.node]);
                                assert(lowered_from(fs[before.len() as int + 0].1, item_bodies(Some(*item))[0]));
                            },
                            None => {
                                assert(fs.take(before.len() as int) =~= fs);
                            },
                        }
                    }
                }
                r
            },
            Item::Struct { name, fields } => {
                if self.collector.remove(name.as_str()) {
                    return Ok(());
                }
                self.import_struct(name.as_str(), fields)
            },
            Item::Enumeration { name, items } => {
                if self.collector.remove(name.as_str()) {
                    return Ok(());
                }
                self.import_enumeration(name.as_str(), items)
            },
            Item::Union { fields, .. } => {
                let mut i: usize = 0;
                while i < fields.len()
                    invariant
                        self.ready(),
                        self.name_resolver.path() == old(self).name_resolver.path(),
                        self.state().next_symbol == old(self).state().next_symbol,
                        self.desugar.module() == old(self).desugar.module(),
                    decreases fields@.len() - i,
                {
                    match self.resolve_type(&fields[i].node.field_type.node) {
                        Ok(_) => {},
                        Err(e) => return Err(e),
                    }
                    i = i + 1;
                }
                Ok(())
            },
        }
    }

    /// Imports the signatures of the items into the module `module_name`, inside a block.
    #[verifier::loop_isolation(false)]
    pub fn import(&mut self, module_name: &'a str, nodes: &[&'a ASTNode]) -> (res: ResolveResult<()>)
        requires
            items_ok(nodes@),
            old(self).ready(),
        ensures
            final(self).ready(),
            final(self).state().next_symbol == old(self).state().next_symbol,
            final(self).desugar.module() == old(self).desugar.module(),
    {
        let _ = self.name_resolver.enter_module(module_name);
        let _ = self.name_resolver.on_enter_scope();
        let _ = self.type_checker.on_enter_scope();
        let mut i: usize = 0;
        while i < nodes.len()
            invariant
                self.ready(),
                self.state().next_symbol == old(self).state().next_symbol,
                self.desugar.module() == old(self).desugar.module(),
            decreases nodes@.len() - i,
        {
            match nodes[i] {
                ASTNode::Item { item, .. } => {
                    proof {
                        assert(node_item(*nodes@[i as int]) matches Some(it) && item_ok(it));
                    }
                    match self.import_item(&item.node) {
                        Ok(()) => {},
                        Err(e) => return Err(e),
                    }
                },
                _ => {},
            }
            i = i + 1;
        }
        match self.type_checker.on_exit_scope() {
            Ok(()) => {},
            Err(e) => return Err(ResolveError::TypeCheckError(e)),
        }
        match self.name_resolver.on_exit_scope() {
            Ok(()) => {},
            Err(e) => return Err(e),
        }
        self.name_resolver.exit_module()
    }

    /// Resolves the items of the module `module_name` in order, inside a block.
    #[verifier::loop_isolation(false)]
    pub fn resolve(&mut self, module_name: &'a str, nodes: &[&'a ASTNode]) -> (res: ResolveResult<()>)
        requires
            items_ok(nodes@),
            old(self).ready(),
            old(self).state().next_symbol + items_demand(nodes@) <= usize::MAX,
        ensures
            final(self).ready(),
            res is Ok ==> final(self).desugar.module().functions@.len() == old(self).desugar.module().functions@.len()
                + bodied_count(nodes@),
            res is Ok ==> final(self).desugar.module().functions@.take(old(self).desugar.module().functions@.len() as int)
                == old(self).desugar.module().functions@ && lowered_all(
                final(self).desugar.module().functions@,
                old(self).desugar.module().functions@.len() as int,
                bodies(nodes@),
            ),
    {
        let _ = self.name_resolver.enter_module(module_name);
        let _ = self.name_resolver.on_enter_scope();
        let _ = self.type_checker.on_enter_scope();
        let ghost s0 = self.state();
        let ghost count0 = self.desugar.module().functions@.len();
        let ghost fs0 = self.desugar.module().functions@;
        let mut i: usize = 0;
        proof {
            assert(nodes@.take(0) =~= Seq::<&ASTNode>::empty());
            assert(fs0.take(count0 as int) =~= fs0);
            assert(bodies(nodes@.take(0)) =~= Seq::<Expression>::empty());
        }
        while i < nodes.len()
            invariant
                i <= nodes@.len(),
                self.ready(),
                self.state().next_symbol <= s0.next_symbol + items_demand(nodes@.take(i as int)),
                self.desugar.module().functions@.len() == count0 + bodied_count(nodes@.take(i as int)),
                self.desugar.module().functions@.take(count0 as int) == fs0,
                lowered_all(self.desugar.module().functions@, count0 as int, bodies(nodes@.take(i as int))),
            decreases nodes@.len() - i,
        {
            proof {
                lemma_items_demand_prefix(nodes@, i as int + 1);
                assert(nodes@.take(i + 1).drop_last() =~= nodes@.take(i as int));
                assert(nodes@.take(i + 1)[i as int] == nodes@[i as int]);
                assert(node_item(*nodes@[i as int]) matches Some(it) && item_ok(it));
            }
            let ghost fs_before = self.desugar.module().functions@;
            match nodes[i] {
                ASTNode::Item { item, .. } => match self.resolve_item(&item.node) {
                    Ok(()) => {},
                    Err(e) => return Err(e),
                },
                _ => vstd::pervasive::unreached(),
            }
            proof {
                let fs1 = self.desugar.module().functions@;
                assert(node_item(*nodes@[i as int]) == Some(nodes@[i as int]->Item_item.node));
                lemma_lowered_extend(fs_before, fs1, count0 as int, bodies(nodes@.take(i as int)), item_bodies(node_item(*nodes@[i as int])));
                assert(bodies(nodes@.take(i + 1)) == bodies(nodes@.take(i as int)) + item_bodies(node_item(*nodes@.take(i + 1)[i as int])));
                assert(fs1.take(count0 as int) =~= fs1.take(fs_before.len() as int).take(count0 as int));
            }
            i = i + 1;
        }
        proof {
            assert(nodes@.take(nodes@.len() as int) =~= nodes@);
        }
        match self.type_checker.on_exit_scope() {
            Ok(()) => {},
            Err(e) => return Err(ResolveError::TypeCheckError(e)),
        }
        match self.name_resolver.on_exit_scope() {
            Ok(()) => {},
            Err(e) => return Err(e),
        }
        self.name_resolver.exit_module()
    }
}

/// Resolves the items of a module after importing all their signatures, so that an item
/// can name one written after it; gives the module of the lowered functions. The functions
/// are numbered with `allocator`, which keeps the numbers it gave.
pub fn resolve_unordered<'a>(project_name: &'a str, module_name: &'a str, items: &[&'a ASTNode], allocator: &mut LinearAllocator) -> (res: ResolveResult<HIRModule>)
    requires
        old(allocator).wf(),
        items_ok(items@),
        items_demand(items@) <= usize::MAX,
    ensures
        final(allocator).wf(),
        res matches Ok(m) ==> m.functions@.len() == bodied_count(items@) && lowered_all(m.functions@, 0, bodies(items@)),
{
    let mut taken = LinearAllocator::new();
    std::mem::swap(&mut taken, allocator);
    let mut resolver = Resolver::new(project_name, HIRModule::new(), taken);
    proof {
        assert(resolver.desugar.module().functions@.take(0) =~= resolver.desugar.module().functions@);
    }
    let outcome = match resolver.import(module_name, items) {
        Ok(()) => resolver.resolve(module_name, items),
        Err(e) => Err(e),
    };
    let (module, numbers) = resolver.desugar.finish();
    *allocator = numbers;
    match outcome {
        Ok(()) => Ok(module),
        Err(e) => Err(e),
    }
}

/// Resolves the items of a module in order, importing each signature where the item stands.
pub fn resolve_sequential<'a>(project_name: &'a str, module_name: &'a str, items: &[&'a ASTNode], allocator: &mut LinearAllocator) -> (res: ResolveResult<HIRModule>)
    requires
        old(allocator).wf(),
        items_ok(items@),
        items_demand(items@) <= usize::MAX,
    ensures
        final(allocator).wf(),
        res matches Ok(m) ==> m.functions@.len() == bodied_count(items@) && lowered_all(m.functions@, 0, bodies(items@)),
{
    let mut taken = LinearAllocator::new();
    std::mem::swap(&mut taken, allocator);
    let mut resolver = Resolver::new(project_name, HIRModule::new(), taken);
    let outcome = resolver.resolve(module_name, items);
    let (module, numbers) = resolver.desugar.finish();
    *allocator = numbers;
    match outcome {
        Ok(()) => Ok(module),
        Err(e) => Err(e),
    }
}

} // verus!
