use super::{ResolveError, ResolveResult};
use crate::hir::SymbolId;
use crate::name_space::errors::NameSpaceError;
use crate::name_space::{
    changed_along, item_added, module_from_path, names_view, EnumItem, FunctionItem, ItemStore, ItemStoreReader,
    ItemSymbol, Module, StructItem, has_added_path,
};
use crate::primitive::PrimitiveType;
use crate::scope::errors::ScopeError;
use crate::scope::{
    added, inferring_names, resolved, strings_view, Scope, ScopeControl, ScopeResult, ScopeView, SymbolStore, SymbolView, TypeOption, TypeRequirement,
    TypeSymbol, TypeSymbolView,
};
use vstd::prelude::*;

verus! {

/// Follows the module being resolved and the blocks inside it: items go to the
/// module's name space, variables and types to the innermost block's scope.
#[derive(Debug)]
pub struct NameResolver<'a> {
    root_module: Module<'a>,
    current_module_path: Vec<&'a str>,
    scope_stack: Vec<Scope<'a>>,
}

/// The name space of the module at `path` below the root: the first name must be
/// a child of the root, and the rest is followed as `module_from_path` does.
pub open spec fn name_space_of<'a>(root: Module<'a>, path: Seq<Seq<char>>) -> Option<Module<'a>> {
    if path.len() > 0 && root.children().contains_key(path[0]) {
        module_from_path(*root.children()[path[0]], path.drop_first())
    } else {
        None
    }
}

/// The outcome of a request passed to a scope, as the resolver reports it.
pub open spec fn from_scope(r: ScopeResult<()>) -> ResolveResult<()> {
    match r {
        Ok(_) => Ok(()),
        Err(e) => Err(ResolveError::ScopeError(e)),
    }
}

/// The outcome of a request passed to a name space, as the resolver reports it.
pub open spec fn from_name_space(r: Result<(), NameSpaceError>) -> ResolveResult<()> {
    match r {
        Ok(_) => Ok(()),
        Err(e) => Err(ResolveError::NameSpaceError(e)),
    }
}

/// The two modules have the same name, items and children.
pub open spec fn same_module<'a>(a: Module<'a>, b: Module<'a>) -> bool {
    a.name() == b.name() && a.items() == b.items() && a.children() == b.children()
}

/// The outcome that a scope reported, from what the resolver reports.
pub open spec fn to_scope(r: ResolveResult<()>) -> ScopeResult<()> {
    match r {
        Ok(_) => Ok(()),
        Err(ResolveError::ScopeError(e)) => Err(e),
        Err(_) => Err(ScopeError::InvalidScope),
    }
}

/// The outcome that a name space reported, from what the resolver reports.
pub open spec fn to_name_space(r: ResolveResult<()>) -> Result<(), NameSpaceError> {
    match r {
        Ok(_) => Ok(()),
        Err(ResolveError::NameSpaceError(e)) => Err(e),
        Err(_) => Err(NameSpaceError::IllegalHierarchyAccess),
    }
}

pub open spec fn scopes_view<'a>(s: Seq<Scope<'a>>) -> Seq<ScopeView> {
    s.map_values(|x: Scope<'a>| x@)
}

impl<'a> NameResolver<'a> {
    /// The root module, named after the project.
    pub closed spec fn root(&self) -> Module<'a> {
        self.root_module
    }

    /// The path of the module being resolved, from the top-level module on.
    pub closed spec fn path(&self) -> Seq<Seq<char>> {
        names_view(self.current_module_path@)
    }

    /// The scopes of the open blocks, innermost last.
    pub closed spec fn scopes(&self) -> Seq<ScopeView> {
        scopes_view(self.scope_stack@)
    }

    /// A resolver with an empty root module named `project_name`, outside any module and block.
    pub fn new(project_name: &'a str) -> (r: Self)
        ensures
            r.root().name() == project_name@,
            r.root().children() == Map::<Seq<char>, Box<Module<'a>>>::empty(),
            r.root().items() == Map::<Seq<char>, crate::name_space::SymbolTable<'a>>::empty(),
            r.path() == Seq::<Seq<char>>::empty(),
            r.scopes() == Seq::<ScopeView>::empty(),
    {
        let r = Self { root_module: Module::new(project_name), current_module_path: Vec::new(), scope_stack: Vec::new() };
        proof {
            assert(r.path() =~= Seq::<Seq<char>>::empty());
            assert(r.scopes() =~= Seq::<ScopeView>::empty());
        }
        r
    }

    /// Enters the child module `name` of the current one, adding it where it is not there yet.
    pub fn enter_module(&mut self, name: &'a str) -> (res: ResolveResult<()>)
        ensures
            res is Ok,
            final(self).path() == old(self).path().push(name@),
            has_added_path(old(self).root(), final(self).root(), old(self).path().push(name@)),
            final(self).scopes() == old(self).scopes(),
    {
        self.current_module_path.push(name);
        self.root_module.add_modules(self.current_module_path.as_slice());
        proof {
            assert(self.path() =~= old(self).path().push(name@));
        }
        Ok(())
    }

    /// Leaves the current module; there must be one.
    pub fn exit_module(&mut self) -> (res: ResolveResult<()>)
        ensures
            old(self).path().len() == 0 ==> res == Err::<(), ResolveError>(ResolveError::InvalidModuleScope)
                && final(self).path() == old(self).path(),
            old(self).path().len() > 0 ==> res is Ok && final(self).path() == old(self).path().drop_last(),
            final(self).root() == old(self).root(),
            final(self).scopes() == old(self).scopes(),
    {
        match self.current_module_path.pop() {
            Some(_) => {
                proof {
                    assert(self.path() =~= old(self).path().drop_last());
                }
                Ok(())
            },
            None => Err(ResolveError::InvalidModuleScope),
        }
    }

    /// The innermost block's scope.
    pub fn get_scope(&self) -> (s: Option<&Scope<'a>>)
        ensures
            match s {
                Some(s) => self.scopes().len() > 0 && s@ == self.scopes().last(),
                None => self.scopes().len() == 0,
            },
    {
        let n = self.scope_stack.len();
        if n == 0 {
            return None;
        }
        Some(&self.scope_stack[n - 1])
    }

    /// The innermost block's scope, to change in place.
    pub fn get_mut_scope(&mut self) -> (s: Option<&mut Scope<'a>>)
        ensures
            match s {
                Some(s) => old(self).scopes().len() > 0 && s@ == old(self).scopes().last()
                    && final(self).scopes() == old(self).scopes().drop_last().push(final(s)@)
                    && final(self).root() == old(self).root() && final(self).path() == old(self).path(),
                None => old(self).scopes().len() == 0 && *final(self) == *old(self),
            },
    {
        let n = self.scope_stack.len();
        if n == 0 {
            return None;
        }
        proof {
            let v = self.scope_stack@;
            assert forall|x: Scope<'a>| #[trigger] scopes_view(v.update(n - 1, x)) == scopes_view(v).drop_last().push(x@) by {
                assert(scopes_view(v.update(n - 1, x)) =~= scopes_view(v).drop_last().push(x@));
            }
        }
        Some(&mut self.scope_stack[n - 1])
    }

    /// The path of the current module followed by `name`.
    pub fn get_full_path(&self, name: &'a str) -> (p: Vec<&'a str>)
        ensures
            names_view(p@) == self.path().push(name@),
    {
        let mut p: Vec<&'a str> = Vec::new();
        let mut i: usize = 0;
        while i < self.current_module_path.len()
            invariant
                i <= self.current_module_path@.len(),
                p@ == self.current_module_path@.take(i as int),
            decreases self.current_module_path@.len() - i,
        {
            p.push(self.current_module_path[i]);
            proof {
                assert(self.current_module_path@.take(i + 1) =~= self.current_module_path@.take(i as int).push(
                    self.current_module_path@[i as int],
                ));
            }
            i = i + 1;
        }
        p.push(name);
        proof {
            assert(self.current_module_path@.take(i as int) =~= self.current_module_path@);
            assert(names_view(p@) =~= self.path().push(name@));
        }
        p
    }

    /// The path of the current module below its top-level module.
    fn get_child_path(&self) -> (p: Vec<&'a str>)
        ensures
            self.path().len() > 0 ==> names_view(p@) == self.path().drop_first(),
    {
        let mut p: Vec<&'a str> = Vec::new();
        let mut i: usize = 1;
        while i < self.current_module_path.len()
            invariant
                1 <= i,
                i <= self.current_module_path@.len() || self.current_module_path@.len() == 0,
                self.current_module_path@.len() > 0 ==> p@ == self.current_module_path@.subrange(1, i as int),
            decreases self.current_module_path@.len() - i,
        {
            p.push(self.current_module_path[i]);
            proof {
                assert(self.current_module_path@.subrange(1, i + 1) =~= self.current_module_path@.subrange(1, i as int).push(
                    self.current_module_path@[i as int],
                ));
            }
            i = i + 1;
        }
        proof {
            if self.current_module_path@.len() > 0 {
                assert(self.current_module_path@.subrange(1, self.current_module_path@.len() as int)
                    =~= self.current_module_path@.drop_first());
                assert(names_view(p@) =~= self.path().drop_first());
            }
        }
        p
    }

    /// The top-level module of the current module.
    fn get_top_level_module(&self) -> (m: Option<&Module<'a>>)
        ensures
            match m {
                Some(m) => self.path().len() > 0 && self.root().children().contains_key(self.path()[0])
                    && *m == *self.root().children()[self.path()[0]],
                None => !(self.path().len() > 0 && self.root().children().contains_key(self.path()[0])),
            },
    {
        if self.current_module_path.len() == 0 {
            return None;
        }
        self.root_module.get_module(self.current_module_path[0])
    }

    /// The name space of the current module.
    fn get_name_space(&self) -> (m: Option<&Module<'a>>)
        ensures
            match m {
                Some(m) => name_space_of(self.root(), self.path()) == Some(*m),
                None => name_space_of(self.root(), self.path()) is None,
            },
    {
        let path = self.get_child_path();
        match self.get_top_level_module() {
            Some(top) => top.get_module_from_path(path.as_slice()),
            None => None,
        }
    }

    /// The name space of the current module, to change in place.
    fn get_mut_name_space(&mut self) -> (m: Option<&mut Module<'a>>)
        ensures
            m matches Some(m) ==> name_space_of(old(self).root(), old(self).path()) == Some(*m),
            m matches Some(m) ==> final(self).path() == old(self).path() && final(self).scopes() == old(self).scopes(),
            m matches Some(m) ==> changed_along(
                old(self).root(),
                final(self).root(),
                seq![old(self).path()[0]],
                *old(self).root().children()[old(self).path()[0]],
                *final(self).root().children()[old(self).path()[0]],
            ),
            m matches Some(m) ==> changed_along(
                *old(self).root().children()[old(self).path()[0]],
                *final(self).root().children()[old(self).path()[0]],
                old(self).path().drop_first(),
                *m,
                *final(m),
            ),
            m is None ==> name_space_of(old(self).root(), old(self).path()) is None,
            m is None ==> final(self).path() == old(self).path() && final(self).scopes() == old(self).scopes(),
            m is None ==> same_module(final(self).root(), old(self).root()),
    {
        proof {
            reveal_with_fuel(changed_along, 2);
        }
        let path = self.get_child_path();
        if self.current_module_path.len() == 0 {
            return None;
        }
        let first = self.current_module_path[0];
        proof {
            reveal_with_fuel(changed_along, 2);
            let root = self.root();
            assert forall|r2: Module<'a>|
                r2.children().contains_key(first@) && changed_along(root, r2, seq![first@], *root.children()[first@], *root.children()[first@])
                implies #[trigger] same_module(r2, root) by {
                assert(seq![first@][0] == first@);
                assert(seq![first@].drop_first() =~= Seq::<Seq<char>>::empty());
                assert(*r2.children()[first@] == *root.children()[first@]);
                assert(r2.children()[first@] == root.children()[first@]);
                assert forall|k: Seq<char>| k != first@ implies (#[trigger] r2.children().contains_key(k) == root.children().contains_key(k)
                    && (r2.children().contains_key(k) ==> r2.children()[k] == root.children()[k])) by {
                    assert(r2.children().remove(first@).contains_key(k) == r2.children().contains_key(k));
                    if r2.children().contains_key(k) {
                        assert(r2.children().remove(first@)[k] == r2.children()[k]);
                        assert(root.children().remove(first@)[k] == root.children()[k]);
                    }
                }
                assert(r2.children() =~= root.children());
            }
        }
        let top = match self.root_module.get_mut_module(first) {
            Some(top) => top,
            None => return None,
        };
        top.get_mut_module_from_path(path.as_slice())
    }
}

impl<'a> NameResolver<'a> {
    /// The type of `name`: from the innermost scope first, then from the current
    /// module's name space; without an open block there is none.
    pub fn get_type(&self, name: &'a str) -> (t: Option<&TypeSymbol>)
        ensures
            self.scopes().len() == 0 ==> t is None,
            self.scopes().len() > 0 ==> match self.scopes().last().declared_type(name@) {
                Some(d) => t matches Some(t) && t@ == d,
                None => match name_space_of(self.root(), self.path()) {
                    Some(ns) => match t {
                        Some(t) => ns.items().contains_key(name@) && t@ == ns.items()[name@].type_of(),
                        None => !ns.items().contains_key(name@),
                    },
                    None => t is None,
                },
            },
    {
        let scope = match self.get_scope() {
            Some(s) => s,
            None => return None,
        };
        if let Some(symbol) = scope.get_type(name) {
            return Some(symbol);
        }
        match self.get_name_space() {
            Some(ns) => ns.get_type(name),
            None => None,
        }
    }

    /// The item `name` of the current module's name space.
    pub fn get_item(&self, name: &'a str) -> (i: Option<&ItemSymbol<'a>>)
        ensures
            match name_space_of(self.root(), self.path()) {
                Some(ns) => match i {
                    Some(i) => ns.items().contains_key(name@) && *i == ns.items()[name@].item(),
                    None => !ns.items().contains_key(name@),
                },
                None => i is None,
            },
    {
        match self.get_name_space() {
            Some(ns) => ns.get_item(name),
            None => None,
        }
    }
}

impl<'a> ScopeControl<ResolveError> for NameResolver<'a> {
    /// Opens a block with an empty scope.
    fn on_enter_scope(&mut self) -> (res: Result<(), ResolveError>)
        ensures
            res is Ok,
            final(self).scopes().len() == old(self).scopes().len() + 1,
            final(self).scopes().drop_last() == old(self).scopes(),
            final(self).scopes().last().symbols == Map::<Seq<char>, SymbolView>::empty(),
            final(self).scopes().last().names == Seq::<Seq<char>>::empty(),
            final(self).scopes().last().imports == Set::<Seq<char>>::empty(),
            final(self).scopes().last().return_type == TypeSymbolView::unit(),
            final(self).root() == old(self).root(),
            final(self).path() == old(self).path(),
    {
        let scope = Scope::new();
        let ghost v = scope@;
        self.scope_stack.push(scope);
        proof {
            assert(self.scopes() =~= old(self).scopes().push(v));
            assert(self.scopes().drop_last() =~= old(self).scopes());
        }
        Ok(())
    }

    /// Closes the innermost block; there must be one, and no name of its scope may
    /// still have its type being inferred.
    fn on_exit_scope(&mut self) -> (res: Result<(), ResolveError>)
        ensures
            old(self).scopes().len() == 0 ==> res == Err::<(), ResolveError>(ResolveError::ScopeError(ScopeError::InvalidScope)),
            old(self).scopes().len() > 0 ==> final(self).scopes() == old(self).scopes().drop_last(),
            old(self).scopes().len() == 0 ==> final(self).scopes() == old(self).scopes(),
            old(self).scopes().len() > 0 ==> {
                let inferring = inferring_names(old(self).scopes().last());
                if inferring.len() == 0 {
                    res is Ok
                } else {
                    res matches Err(ResolveError::UnresolveTypes { names }) && strings_view(names@) == inferring
                }
            },
            final(self).root() == old(self).root(),
            final(self).path() == old(self).path(),
    {
        if self.scope_stack.len() == 0 {
            return Err(ResolveError::ScopeError(ScopeError::InvalidScope));
        }
        let scope = match self.scope_stack.pop() {
            Some(scope) => scope,
            None => return Err(ResolveError::ScopeError(ScopeError::InvalidScope)),
        };
        proof {
            assert(self.scopes() =~= old(self).scopes().drop_last());
        }
        let inffering_names = scope.get_inferring_names();
        if inffering_names.len() != 0 {
            return Err(ResolveError::UnresolveTypes { names: inffering_names });
        }
        Ok(())
    }
}

/// `new` is `old` with `item` added to the current module's name space `ns`, and
/// `res` is what the name space answered; the root changed only along the path.
pub open spec fn stored_in<'a>(old: NameResolver<'a>, new: NameResolver<'a>, ns: Module<'a>, name: Seq<char>, item: ItemSymbol<'a>, res: ResolveResult<()>, refused: bool) -> bool {
    &&& (res is Ok || (res matches Err(ResolveError::NameSpaceError(_))))
    &&& changed_along(
        old.root(),
        new.root(),
        seq![old.path()[0]],
        *old.root().children()[old.path()[0]],
        *new.root().children()[old.path()[0]],
    )
    &&& exists|ns2: Module<'a>|
        #![trigger changed_along(*old.root().children()[old.path()[0]], *new.root().children()[old.path()[0]], old.path().drop_first(), ns, ns2)]
        changed_along(
            *old.root().children()[old.path()[0]],
            *new.root().children()[old.path()[0]],
            old.path().drop_first(),
            ns,
            ns2,
        ) && item_added(ns, ns2, name, item, to_name_space(res), refused)
}

impl<'a> ItemStore<'a, ResolveError> for NameResolver<'a> {
    /// Adds a structure to the current module's name space.
    fn add_struct(&mut self, struct_item: StructItem<'a>) -> (res: Result<(), ResolveError>)
        ensures
            final(self).path() == old(self).path(),
            final(self).scopes() == old(self).scopes(),
            name_space_of(old(self).root(), old(self).path()) is None ==> res == Err::<(), ResolveError>(
                ResolveError::ScopeError(ScopeError::InvalidScope),
            ) && same_module(final(self).root(), old(self).root()),
            name_space_of(old(self).root(), old(self).path()) matches Some(ns) ==> stored_in(
                *old(self),
                *final(self),
                ns,
                struct_item.name@,
                ItemSymbol::Struct(struct_item),
                res,
                res matches Err(ResolveError::NameSpaceError(NameSpaceError::DuplicateStruct { name })) && name@ == struct_item.name@,
            ),
    {
        match self.get_mut_name_space() {
            Some(ns) => match ns.add_struct(struct_item) {
                Ok(()) => Ok(()),
                Err(e) => Err(ResolveError::NameSpaceError(e)),
            },
            None => Err(ResolveError::ScopeError(ScopeError::InvalidScope)),
        }
    }

    /// Adds a function to the current module's name space.
    fn add_function(&mut self, function_item: FunctionItem<'a>) -> (res: Result<(), ResolveError>)
        ensures
            final(self).path() == old(self).path(),
            final(self).scopes() == old(self).scopes(),
            name_space_of(old(self).root(), old(self).path()) is None ==> res == Err::<(), ResolveError>(
                ResolveError::ScopeError(ScopeError::InvalidScope),
            ) && same_module(final(self).root(), old(self).root()),
            name_space_of(old(self).root(), old(self).path()) matches Some(ns) ==> stored_in(
                *old(self),
                *final(self),
                ns,
                function_item.name@,
                ItemSymbol::Function(function_item),
                res,
                res matches Err(ResolveError::NameSpaceError(NameSpaceError::DuplicateFunction { name })) && name@ == function_item.name@,
            ),
    {
        match self.get_mut_name_space() {
            Some(ns) => match ns.add_function(function_item) {
                Ok(()) => Ok(()),
                Err(e) => Err(ResolveError::NameSpaceError(e)),
            },
            None => Err(ResolveError::ScopeError(ScopeError::InvalidScope)),
        }
    }

    /// Adds an enumeration to the current module's name space.
    fn add_enumeration(&mut self, enum_item: EnumItem<'a>) -> (res: Result<(), ResolveError>)
        ensures
            final(self).path() == old(self).path(),
            final(self).scopes() == old(self).scopes(),
            name_space_of(old(self).root(), old(self).path()) is None ==> res == Err::<(), ResolveError>(
                ResolveError::ScopeError(ScopeError::InvalidScope),
            ) && same_module(final(self).root(), old(self).root()),
            name_space_of(old(self).root(), old(self).path()) matches Some(ns) ==> stored_in(
                *old(self),
                *final(self),
                ns,
                enum_item.name@,
                ItemSymbol::Enumeration(enum_item),
                res,
                res matches Err(ResolveError::NameSpaceError(NameSpaceError::DuplicateEnumeration { name })) && name@ == enum_item.name@,
            ),
    {
        match self.get_mut_name_space() {
            Some(ns) => match ns.add_enumeration(enum_item) {
                Ok(()) => Ok(()),
                Err(e) => Err(ResolveError::NameSpaceError(e)),
            },
            None => Err(ResolveError::ScopeError(ScopeError::InvalidScope)),
        }
    }
}

/// What a request passed to the innermost scope did: without an open block it is
/// refused with `InvalidScope`; otherwise only the innermost scope changed, as
/// `done` says of it and of the scope's answer.
pub open spec fn scope_request<'a>(old: NameResolver<'a>, new: NameResolver<'a>, res: ResolveResult<()>, done: spec_fn(ScopeView, ScopeView, ScopeResult<()>) -> bool) -> bool {
    &&& new.root() == old.root()
    &&& new.path() == old.path()
    &&& if old.scopes().len() == 0 {
        new.scopes() == old.scopes() && res == Err::<(), ResolveError>(ResolveError::ScopeError(ScopeError::InvalidScope))
    } else {
        &&& new.scopes().len() == old.scopes().len()
        &&& new.scopes().drop_last() == old.scopes().drop_last()
        &&& (res is Ok || (res matches Err(ResolveError::ScopeError(_))))
        &&& done(old.scopes().last(), new.scopes().last(), to_scope(res))
    }
}

impl<'a> SymbolStore<'a, ResolveError> for NameResolver<'a> {
    /// Adds the variable `id` of type `ty` under `name` to the innermost scope.
    fn add_variable(&mut self, id: SymbolId, name: &'a str, ty: TypeRequirement) -> (res: Result<(), ResolveError>)
        ensures
            scope_request(*old(self), *final(self), res,
                |a: ScopeView, b: ScopeView, r: ScopeResult<()>| added(a, b, name@, SymbolView::Variable { id, ty: ty@ }, r)),
    {
        proof {
            let d = self.scopes().drop_last();
            assert forall|x: ScopeView| #[trigger] d.push(x).drop_last() == d by {
                assert(d.push(x).drop_last() =~= d);
            }
        }
        match self.get_mut_scope() {
            Some(scope) => match scope.add_variable(id, name, ty) {
                Ok(()) => Ok(()),
                Err(e) => Err(ResolveError::ScopeError(e)),
            },
            None => Err(ResolveError::ScopeError(ScopeError::InvalidScope)),
        }
    }

    /// The variable that `name` stands for in the innermost scope.
    fn get_variable_id(&self, name: &'a str) -> (r: Option<&SymbolId>)
        ensures
            self.scopes().len() == 0 ==> r is None,
            self.scopes().len() > 0 ==> match r {
                Some(id) => self.scopes().last().symbols.contains_key(name@) && (self.scopes().last().symbols[name@] matches SymbolView::Variable { id: i, .. } && i == *id),
                None => !(self.scopes().last().symbols.contains_key(name@) && self.scopes().last().symbols[name@] is Variable),
            },
    {
        match self.get_scope() {
            Some(scope) => scope.get_variable_id(name),
            None => None,
        }
    }

    /// Adds the type `ty` under `name` to the innermost scope.
    fn add_type(&mut self, name: &'a str, ty: TypeRequirement) -> (res: Result<(), ResolveError>)
        ensures
            scope_request(*old(self), *final(self), res,
                |a: ScopeView, b: ScopeView, r: ScopeResult<()>| added(a, b, name@, SymbolView::Type(ty@), r)),
    {
        proof {
            let d = self.scopes().drop_last();
            assert forall|x: ScopeView| #[trigger] d.push(x).drop_last() == d by {
                assert(d.push(x).drop_last() =~= d);
            }
        }
        match self.get_mut_scope() {
            Some(scope) => match scope.add_type(name, ty) {
                Ok(()) => Ok(()),
                Err(e) => Err(ResolveError::ScopeError(e)),
            },
            None => Err(ResolveError::ScopeError(ScopeError::InvalidScope)),
        }
    }

    /// The known type of `name` in the innermost scope.
    fn get_type(&self, name: &'a str) -> (t: Option<&TypeSymbol>)
        ensures
            self.scopes().len() == 0 ==> t is None,
            self.scopes().len() > 0 ==> match t {
                Some(t) => self.scopes().last().declared_type(name@) == Some(t@),
                None => self.scopes().last().declared_type(name@) is None,
            },
    {
        match self.get_scope() {
            Some(scope) => scope.get_type(name),
            None => None,
        }
    }

    /// The options of what `name` stands for in the innermost scope.
    fn get_type_option(&self, name: &'a str) -> (o: Option<&TypeOption>)
        ensures
            self.scopes().len() == 0 ==> o is None,
            self.scopes().len() > 0 ==> match o {
                Some(o) => self.scopes().last().symbols.contains_key(name@) && *o == self.scopes().last().symbols[name@].requirement().option(),
                None => !self.scopes().last().symbols.contains_key(name@),
            },
    {
        match self.get_scope() {
            Some(scope) => scope.get_type_option(name),
            None => None,
        }
    }

    /// What `name` stands for in the innermost scope.
    fn get_symbol(&self, name: &'a str) -> (r: Option<&crate::scope::Symbol>)
        ensures
            self.scopes().len() == 0 ==> r is None,
            self.scopes().len() > 0 ==> match r {
                Some(s) => self.scopes().last().symbols.contains_key(name@) && s@ == self.scopes().last().symbols[name@],
                None => !self.scopes().last().symbols.contains_key(name@),
            },
    {
        match self.get_scope() {
            Some(scope) => scope.get_symbol(name),
            None => None,
        }
    }

    /// Settles the type of the variable `name` of the innermost scope.
    fn resolve_variable_type(&mut self, name: &'a str, ty: PrimitiveType) -> (res: Result<(), ResolveError>)
        ensures
            scope_request(*old(self), *final(self), res,
                |a: ScopeView, b: ScopeView, r: ScopeResult<()>| resolved(a, b, name@, ty@, r)),
    {
        proof {
            let d = self.scopes().drop_last();
            assert forall|x: ScopeView| #[trigger] d.push(x).drop_last() == d by {
                assert(d.push(x).drop_last() =~= d);
            }
        }
        match self.get_mut_scope() {
            Some(scope) => match scope.resolve_variable_type(name, ty) {
                Ok(()) => Ok(()),
                Err(e) => Err(ResolveError::ScopeError(e)),
            },
            None => Err(ResolveError::ScopeError(ScopeError::InvalidScope)),
        }
    }

    /// Whether `name` stands for a variable in the innermost scope.
    fn is_variable(&self, name: &'a str) -> (r: bool)
        ensures
            r == (self.scopes().len() > 0 && self.scopes().last().symbols.contains_key(name@)
                && self.scopes().last().symbols[name@] is Variable),
    {
        match self.get_scope() {
            Some(s) => s.is_variable(name),
            None => false,
        }
    }

    /// Whether `name` stands for a type in the innermost scope.
    fn is_type(&self, name: &'a str) -> (r: bool)
        ensures
            r == (self.scopes().len() > 0 && self.scopes().last().symbols.contains_key(name@)
                && self.scopes().last().symbols[name@] is Type),
    {
        match self.get_scope() {
            Some(s) => s.is_type(name),
            None => false,
        }
    }

    /// Whether `name` stands for anything in the innermost scope.
    fn contains(&self, name: &'a str) -> (r: bool)
        ensures
            r == (self.scopes().len() > 0 && self.scopes().last().symbols.contains_key(name@)),
    {
        match self.get_scope() {
            Some(scope) => scope.contains(name),
            None => false,
        }
    }
}

impl<'a> ItemStoreReader<'a> for NameResolver<'a> {
    /// The structure `name` of the current module's name space.
    fn get_struct(&self, name: &'a str) -> (s: Option<&StructItem<'a>>)
        ensures
            match name_space_of(self.root(), self.path()) {
                Some(ns) => match s {
                    Some(s) => ns.items().contains_key(name@) && ns.items()[name@].item() == ItemSymbol::Struct(*s),
                    None => !(ns.items().contains_key(name@) && ns.items()[name@].item() is Struct),
                },
                None => s is None,
            },
    {
        match self.get_name_space() {
            Some(ns) => ns.get_struct(name),
            None => None,
        }
    }

    /// The function `name` of the current module's name space.
    fn get_function(&self, name: &'a str) -> (f: Option<&FunctionItem<'a>>)
        ensures
            match name_space_of(self.root(), self.path()) {
                Some(ns) => match f {
                    Some(f) => ns.items().contains_key(name@) && ns.items()[name@].item() == ItemSymbol::Function(*f),
                    None => !(ns.items().contains_key(name@) && ns.items()[name@].item() is Function),
                },
                None => f is None,
            },
    {
        match self.get_name_space() {
            Some(ns) => ns.get_function(name),
            None => None,
        }
    }

    /// The enumeration `name` of the current module's name space.
    fn get_enumeration(&self, name: &'a str) -> (e: Option<&EnumItem<'a>>)
        ensures
            match name_space_of(self.root(), self.path()) {
                Some(ns) => match e {
                    Some(e) => ns.items().contains_key(name@) && ns.items()[name@].item() == ItemSymbol::Enumeration(*e),
                    None => !(ns.items().contains_key(name@) && ns.items()[name@].item() is Enumeration),
                },
                None => e is None,
            },
    {
        match self.get_name_space() {
            Some(ns) => ns.get_enumeration(name),
            None => None,
        }
    }
}

} // verus!
