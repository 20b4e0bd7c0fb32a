pub mod errors;
pub mod symbol;

pub use self::symbol::{
    type_symbol_debug, Symbol, SymbolView, TypeOption, TypeRequirement, TypeRequirementView, TypeSymbol, TypeSymbolView,
};

use self::errors::ScopeError;
use crate::chars::{chars_less, lemma_chars_less_order, lemma_chars_less_trans, str_eq, str_less};
use crate::hir::SymbolId;
use crate::primitive::{PrimitiveType, TypeView};
use vstd::prelude::*;

verus! {

broadcast use vstd::string::group_string_axioms;

pub type ScopeId = u64;

pub type ScopeResult<T> = Result<T, ScopeError>;

pub const ROOT_SCOPE_ID: ScopeId = 0;

/// Told when a scope is entered and left.
pub trait ScopeControl<E> {
    fn on_enter_scope(&mut self) -> Result<(), E>;

    fn on_exit_scope(&mut self) -> Result<(), E>;
}

/// A store of the variables and types that names stand for.
pub trait SymbolStore<'a, E> {
    fn add_variable(&mut self, id: SymbolId, name: &'a str, ty: TypeRequirement) -> Result<(), E>;

    fn get_variable_id(&self, name: &'a str) -> Option<&SymbolId>;

    fn add_type(&mut self, name: &'a str, ty: TypeRequirement) -> Result<(), E>;

    fn get_type(&self, name: &'a str) -> Option<&TypeSymbol>;

    fn get_type_option(&self, name: &'a str) -> Option<&TypeOption>;

    fn get_symbol(&self, name: &'a str) -> Option<&Symbol>;

    fn resolve_variable_type(&mut self, name: &'a str, ty: PrimitiveType) -> Result<(), E>;

    fn is_variable(&self, name: &'a str) -> bool;

    fn is_type(&self, name: &'a str) -> bool;

    fn contains(&self, name: &'a str) -> bool;
}

/// The names of one block, each standing for a variable or a type, kept in the
/// order of their characters.
#[derive(Debug)]
pub struct Scope<'a> {
    label: Option<&'a str>,
    parent: Option<&'a Scope<'a>>,
    symbol_map: Vec<(&'a str, Symbol)>,
    import_types: Vec<&'a str>,
    return_type: TypeSymbol,
}

/// The content of a scope.
pub struct ScopeView {
    /// What each name stands for.
    pub symbols: Map<Seq<char>, SymbolView>,
    /// The names, in the order of their characters.
    pub names: Seq<Seq<char>>,
    /// The names of imported types.
    pub imports: Set<Seq<char>>,
    /// The type that the block gives back.
    pub return_type: TypeSymbolView,
}

/// The map that a list of named entries describes.
pub open spec fn entries_map(e: Seq<(Seq<char>, SymbolView)>) -> Map<Seq<char>, SymbolView>
    decreases e.len(),
{
    if e.len() == 0 {
        Map::empty()
    } else {
        entries_map(e.drop_last()).insert(e.last().0, e.last().1)
    }
}

/// Each name comes strictly before the next.
pub open spec fn strictly_sorted(names: Seq<Seq<char>>) -> bool {
    forall|i: int, j: int| 0 <= i < j < names.len() ==> chars_less(#[trigger] names[i], #[trigger] names[j])
}

pub open spec fn keys_of(e: Seq<(Seq<char>, SymbolView)>) -> Seq<Seq<char>> {
    e.map_values(|x: (Seq<char>, SymbolView)| x.0)
}

pub open spec fn unique_keys(e: Seq<(Seq<char>, SymbolView)>) -> bool {
    forall|i: int, j: int| 0 <= i < e.len() && 0 <= j < e.len() && i != j ==> #[trigger] e[i].0 != #[trigger] e[j].0
}

/// The characters of each string.
pub open spec fn strings_view(s: Seq<String>) -> Seq<Seq<char>> {
    s.map_values(|n: String| n@)
}

/// Whether a name's type is still being inferred in the scope.
pub open spec fn inferring_pred(v: ScopeView) -> spec_fn(Seq<char>) -> bool {
    |n: Seq<char>| v.symbols[n].contains_inferring()
}

/// The names whose types are still being inferred, in the order of the scope's names.
pub open spec fn inferring_names(v: ScopeView) -> Seq<Seq<char>> {
    v.names.filter(inferring_pred(v))
}

/// Keeping some names of a list keeps them in order, and keeps exactly those that pass.
proof fn lemma_filter_sorted(s: Seq<Seq<char>>, p: spec_fn(Seq<char>) -> bool)
    requires
        strictly_sorted(s),
    ensures
        strictly_sorted(s.filter(p)),
        forall|x: Seq<char>| #[trigger] s.filter(p).contains(x) <==> s.contains(x) && p(x),
    decreases s.len(),
{
    reveal(Seq::filter);
    if s.len() > 0 {
        let d = s.drop_last();
        assert(strictly_sorted(d)) by {
            assert forall|i: int, j: int| 0 <= i < j < d.len() implies chars_less(#[trigger] d[i], #[trigger] d[j]) by {
                assert(d[i] == s[i] && d[j] == s[j]);
            }
        }
        lemma_filter_sorted(d, p);
        let sub = d.filter(p);
        let last = s[s.len() - 1];
        assert(s.filter(p) == if p(last) { sub.push(last) } else { sub });
        assert forall|x: Seq<char>| #[trigger] s.contains(x) <==> d.contains(x) || x == last by {
            if s.contains(x) {
                let i = choose|i: int| 0 <= i < s.len() && s[i] == x;
                if i < s.len() - 1 {
                    assert(d[i] == x);
                }
            }
            if d.contains(x) {
                let i = choose|i: int| 0 <= i < d.len() && d[i] == x;
                assert(s[i] == x);
            }
            if x == last {
                assert(s[s.len() - 1] == x);
            }
        }
        if p(last) {
            let f = sub.push(last);
            assert forall|i: int, j: int| 0 <= i < j < f.len() implies chars_less(#[trigger] f[i], #[trigger] f[j]) by {
                if j < sub.len() {
                    assert(f[i] == sub[i] && f[j] == sub[j]);
                } else {
                    assert(f[i] == sub[i]);
                    assert(sub.contains(sub[i]));
                    assert(d.contains(sub[i]));
                    let k = choose|k: int| 0 <= k < d.len() && d[k] == sub[i];
                    assert(s[k] == d[k]);
                    assert(chars_less(s[k], s[s.len() - 1]));
                }
            }
            assert forall|x: Seq<char>| #[trigger] f.contains(x) <==> s.contains(x) && p(x) by {
                if f.contains(x) {
                    let i = choose|i: int| 0 <= i < f.len() && f[i] == x;
                    if i < sub.len() {
                        assert(sub[i] == x);
                        assert(sub.contains(x));
                    }
                }
                if s.contains(x) && p(x) {
                    if x == last {
                        assert(f[f.len() - 1] == x);
                    } else {
                        assert(sub.contains(x));
                        let i = choose|i: int| 0 <= i < sub.len() && sub[i] == x;
                        assert(f[i] == x);
                    }
                }
            }
        } else {
            assert forall|x: Seq<char>| #[trigger] sub.contains(x) <==> s.contains(x) && p(x) by {
                if x == last && s.contains(x) && p(x) {
                    assert(false);
                }
            }
        }
    }
}

/// The names whose types are still being inferred come in strictly ascending order, are
/// exactly the names that stand for something whose type is being inferred, and there are
/// some exactly when some name's type is being inferred.
pub proof fn law_inferring_names(v: ScopeView)
    requires
        v.wf(),
    ensures
        strictly_sorted(inferring_names(v)),
        forall|n: Seq<char>| #[trigger] inferring_names(v).contains(n) <==> v.symbols.contains_key(n)
            && v.symbols[n].contains_inferring(),
        (exists|k: Seq<char>| #[trigger] v.symbols.contains_key(k) && v.symbols[k].contains_inferring())
            <==> inferring_names(v).len() > 0,
{
    lemma_filter_sorted(v.names, inferring_pred(v));
    let f = inferring_names(v);
    if exists|k: Seq<char>| #[trigger] v.symbols.contains_key(k) && v.symbols[k].contains_inferring() {
        let k = choose|k: Seq<char>| #[trigger] v.symbols.contains_key(k) && v.symbols[k].contains_inferring();
        assert(v.names.contains(k));
        assert(f.contains(k));
    }
    if f.len() > 0 {
        assert(f.contains(f[0]));
        assert(v.symbols.contains_key(f[0]) && v.symbols[f[0]].contains_inferring());
    }
}

/// A sorted list has no name twice.
proof fn lemma_sorted_unique(e: Seq<(Seq<char>, SymbolView)>)
    requires
        strictly_sorted(keys_of(e)),
    ensures
        unique_keys(e),
{
    assert forall|i: int, j: int| 0 <= i < e.len() && 0 <= j < e.len() && i != j implies #[trigger] e[i].0 != #[trigger] e[j].0 by {
        lemma_chars_less_order(e[i].0, e[j].0);
        if i < j {
            assert(chars_less(keys_of(e)[i], keys_of(e)[j]));
        } else {
            assert(chars_less(keys_of(e)[j], keys_of(e)[i]));
        }
    }
}

/// With no name twice, the map holds exactly the entries of the list.
proof fn lemma_entries_map(e: Seq<(Seq<char>, SymbolView)>)
    requires
        unique_keys(e),
    ensures
        forall|i: int| 0 <= i < e.len() ==> #[trigger] entries_map(e).contains_key(e[i].0) && entries_map(e)[e[i].0] == e[i].1,
        forall|k: Seq<char>| #[trigger] entries_map(e).contains_key(k) ==> exists|i: int| 0 <= i < e.len() && e[i].0 == k,
    decreases e.len(),
{
    if e.len() > 0 {
        let d = e.drop_last();
        assert(unique_keys(d)) by {
            assert forall|i: int, j: int| 0 <= i < d.len() && 0 <= j < d.len() && i != j implies #[trigger] d[i].0 != #[trigger] d[j].0 by {
                assert(d[i] == e[i] && d[j] == e[j]);
            }
        }
        lemma_entries_map(d);
        assert forall|i: int| 0 <= i < e.len() implies #[trigger] entries_map(e).contains_key(e[i].0) && entries_map(e)[e[i].0] == e[i].1 by {
            if i < e.len() - 1 {
                assert(d[i] == e[i]);
                assert(entries_map(d).contains_key(d[i].0));
                assert(e[i].0 != e[e.len() - 1].0);
            } else {
                assert(e[i] == e.last());
            }
        }
        assert forall|k: Seq<char>| #[trigger] entries_map(e).contains_key(k) implies exists|i: int| 0 <= i < e.len() && e[i].0 == k by {
            if k != e.last().0 {
                assert(entries_map(d).contains_key(k));
                let i = choose|i: int| 0 <= i < d.len() && d[i].0 == k;
                assert(e[i] == d[i]);
            } else {
                assert(e[e.len() - 1].0 == k);
            }
        }
    }
}

/// Putting an entry with a new name anywhere in the list adds it to the map.
proof fn lemma_entries_map_insert(e: Seq<(Seq<char>, SymbolView)>, p: int, x: (Seq<char>, SymbolView))
    requires
        0 <= p <= e.len(),
        unique_keys(e.insert(p, x)),
    ensures
        entries_map(e.insert(p, x)) == entries_map(e).insert(x.0, x.1),
    decreases e.len(),
{
    let f = e.insert(p, x);
    if p == e.len() {
        assert(f.drop_last() =~= e);
        assert(f.last() == x);
    } else {
        let d = e.drop_last();
        assert(f.drop_last() =~= d.insert(p, x));
        assert(f.last() == e.last());
        assert(unique_keys(d.insert(p, x))) by {
            let g = d.insert(p, x);
            assert forall|i: int, j: int| 0 <= i < g.len() && 0 <= j < g.len() && i != j implies #[trigger] g[i].0 != #[trigger] g[j].0 by {
                assert(g[i] == f[i] && g[j] == f[j]);
            }
        }
        lemma_entries_map_insert(d, p, x);
        assert(f[p] == x);
        assert(f[f.len() - 1] == e.last());
        assert(x.0 != e.last().0);
        assert(entries_map(f) =~= entries_map(e).insert(x.0, x.1));
    }
}

/// Changing what the entry at `p` stands for changes it in the map.
proof fn lemma_entries_map_update(e: Seq<(Seq<char>, SymbolView)>, p: int, v: SymbolView)
    requires
        0 <= p < e.len(),
        unique_keys(e),
    ensures
        entries_map(e.update(p, (e[p].0, v))) == entries_map(e).insert(e[p].0, v),
    decreases e.len(),
{
    let f = e.update(p, (e[p].0, v));
    let d = e.drop_last();
    if p == e.len() - 1 {
        assert(f.drop_last() =~= d);
        assert(entries_map(f) =~= entries_map(e).insert(e[p].0, v));
    } else {
        assert(f.drop_last() =~= d.update(p, (d[p].0, v)));
        assert(unique_keys(d)) by {
            assert forall|i: int, j: int| 0 <= i < d.len() && 0 <= j < d.len() && i != j implies #[trigger] d[i].0 != #[trigger] d[j].0 by {
                assert(d[i] == e[i] && d[j] == e[j]);
            }
        }
        lemma_entries_map_update(d, p, v);
        assert(e[p].0 != e[e.len() - 1].0);
        assert(entries_map(f) =~= entries_map(e).insert(e[p].0, v));
    }
}

impl<'a> Scope<'a> {
    closed spec fn entries(&self) -> Seq<(Seq<char>, SymbolView)> {
        self.symbol_map@.map_values(|x: (&'a str, Symbol)| (x.0@, x.1@))
    }

    closed spec fn import_names(&self) -> Seq<Seq<char>> {
        self.import_types@.map_values(|x: &'a str| x@)
    }

    #[verifier::type_invariant]
    closed spec fn inv(&self) -> bool {
        strictly_sorted(keys_of(self.entries()))
    }
}

impl<'a> View for Scope<'a> {
    type V = ScopeView;

    closed spec fn view(&self) -> ScopeView {
        ScopeView {
            symbols: entries_map(self.entries()),
            names: keys_of(self.entries()),
            imports: self.import_names().to_set(),
            return_type: self.return_type@,
        }
    }
}

impl ScopeView {
    /// The names are in order and are exactly the names that stand for something.
    pub open spec fn wf(self) -> bool {
        &&& strictly_sorted(self.names)
        &&& forall|k: Seq<char>| self.symbols.contains_key(k) <==> #[trigger] self.names.contains(k)
    }

    /// The type that a name stands for, as a type or as the type of a variable, once known.
    pub open spec fn declared_type(self, name: Seq<char>) -> Option<TypeSymbolView> {
        if self.symbols.contains_key(name) {
            match self.symbols[name].requirement() {
                TypeRequirementView::Expect(t) => Some(t),
                TypeRequirementView::Inferring(_) => None,
            }
        } else {
            None
        }
    }
}

/// The error for adding a name that already stands for `existing`.
pub open spec fn is_duplicate_error(e: ScopeError, existing: SymbolView, name: Seq<char>) -> bool {
    match existing {
        SymbolView::Variable { .. } => e matches ScopeError::DuplicateVariable { name: n } && n@ == name,
        SymbolView::Type(_) => e matches ScopeError::DuplicateType { name: n } && n@ == name,
    }
}

/// What adding `symbol` under `name` does: a name that already stands for
/// something is refused and nothing changes; a new name is added.
pub open spec fn added(old: ScopeView, new: ScopeView, name: Seq<char>, symbol: SymbolView, res: ScopeResult<()>) -> bool {
    if old.symbols.contains_key(name) {
        &&& new == old
        &&& (res matches Err(e) && is_duplicate_error(e, old.symbols[name], name))
    } else {
        &&& res is Ok
        &&& new.symbols == old.symbols.insert(name, symbol)
        &&& new.return_type == old.return_type
        &&& new.imports == old.imports
    }
}

/// What settling the type of `name` to `t` does: only a variable whose type is
/// still being inferred can be settled, once; otherwise nothing changes.
pub open spec fn resolved(old: ScopeView, new: ScopeView, name: Seq<char>, t: TypeView, res: ScopeResult<()>) -> bool {
    if !old.symbols.contains_key(name) {
        &&& new == old
        &&& (res matches Err(ScopeError::UnresolvedVariable { name: n }) && n@ == name)
    } else {
        match old.symbols[name] {
            SymbolView::Type(_) => {
                &&& new == old
                &&& (res matches Err(ScopeError::NotVariable { name: n, found: f }) && n@ == name && f@ == "Type"@)
            },
            SymbolView::Variable { id, ty: TypeRequirementView::Expect(_) } => {
                &&& new == old
                &&& (res matches Err(ScopeError::TypeConflict { name: n, expected: e, found: f }) && n@ == name
                    && e@ == "Inferring"@ && f@ == ""@)
            },
            SymbolView::Variable { id, ty: TypeRequirementView::Inferring(option) } => {
                &&& res is Ok
                &&& new.symbols == old.symbols.insert(
                    name,
                    SymbolView::Variable {
                        id,
                        ty: TypeRequirementView::Expect(TypeSymbolView { type_kind: t, option }),
                    },
                )
                &&& new.return_type == old.return_type
                &&& new.imports == old.imports
            },
        }
    }
}

impl<'a> Scope<'a> {
    proof fn lemma_view_wf(&self)
        requires
            self.inv(),
        ensures
            self@.wf(),
            unique_keys(self.entries()),
    {
        let e = self.entries();
        lemma_sorted_unique(e);
        lemma_entries_map(e);
        assert forall|k: Seq<char>| self@.symbols.contains_key(k) <==> #[trigger] self@.names.contains(k) by {
            if self@.symbols.contains_key(k) {
                let i = choose|i: int| 0 <= i < e.len() && e[i].0 == k;
                assert(keys_of(e)[i] == k);
            }
            if self@.names.contains(k) {
                let i = choose|i: int| 0 <= i < keys_of(e).len() && keys_of(e)[i] == k;
                assert(entries_map(e).contains_key(e[i].0));
            }
        }
    }

    /// An empty scope that gives back `()`.
    pub fn new() -> (s: Self)
        ensures
            s@.symbols == Map::<Seq<char>, SymbolView>::empty(),
            s@.names == Seq::<Seq<char>>::empty(),
            s@.imports == Set::<Seq<char>>::empty(),
            s@.return_type == TypeSymbolView::unit(),
            s@.wf(),
    {
        let s = Self {
            label: None,
            parent: None,
            symbol_map: Vec::new(),
            import_types: Vec::new(),
            return_type: TypeSymbol::default(),
        };
        proof {
            assert(s.entries() =~= Seq::<(Seq<char>, SymbolView)>::empty());
            assert(s.import_names() =~= Seq::<Seq<char>>::empty());
            assert(s@.imports =~= Set::<Seq<char>>::empty());
            assert(s@.names =~= Seq::<Seq<char>>::empty());
            s.lemma_view_wf();
        }
        s
    }

    pub fn set_return_type(&mut self, retrun_type: TypeSymbol)
        ensures
            final(self)@.return_type == retrun_type@,
            final(self)@.symbols == old(self)@.symbols,
            final(self)@.names == old(self)@.names,
            final(self)@.imports == old(self)@.imports,
    {
        proof {
            use_type_invariant(&*self);
        }
        self.return_type = retrun_type;
    }

    pub fn get_return_type(&self) -> (t: &TypeSymbol)
        ensures
            t@ == self@.return_type,
    {
        &self.return_type
    }

    /// Records an imported type name; a name recorded twice is kept once.
    pub fn add_import_type(&mut self, name: &'a str) -> (res: ScopeResult<()>)
        ensures
            res is Ok,
            final(self)@.imports == old(self)@.imports.insert(name@),
            final(self)@.symbols == old(self)@.symbols,
            final(self)@.names == old(self)@.names,
            final(self)@.return_type == old(self)@.return_type,
    {
        proof {
            use_type_invariant(&*self);
        }
        let mut i: usize = 0;
        while i < self.import_types.len()
            invariant
                i <= self.import_types@.len(),
                forall|j: int| 0 <= j < i ==> self.import_types@[j]@ != name@,
            decreases self.import_types@.len() - i,
        {
            if str_eq(self.import_types[i], name) {
                proof {
                    assert(self.import_names()[i as int] == name@);
                    assert(self@.imports =~= old(self)@.imports.insert(name@));
                }
                return Ok(());
            }
            i = i + 1;
        }
        let mut imports = Vec::new();
        std::mem::swap(&mut imports, &mut self.import_types);
        imports.push(name);
        self.import_types = imports;
        proof {
            let before = old(self).import_names();
            let after = self.import_names();
            assert(after =~= before.push(name@));
            assert forall|k: Seq<char>| after.contains(k) <==> before.contains(k) || k == name@ by {
                if k == name@ {
                    assert(after[before.len() as int] == k);
                }
                if before.contains(k) {
                    let j = choose|j: int| 0 <= j < before.len() && before[j] == k;
                    assert(after[j] == k);
                }
                if after.contains(k) {
                    let j = choose|j: int| 0 <= j < after.len() && after[j] == k;
                    if j < before.len() {
                        assert(before[j] == k);
                    }
                }
            }
            assert(self@.imports =~= old(self)@.imports.insert(name@));
        }
        Ok(())
    }

    /// Where `name` is or would go: the count of names before it, and whether it is there.
    fn find(&self, name: &str) -> (res: (usize, bool))
        ensures
            res.0 <= self@.names.len(),
            forall|i: int| 0 <= i < res.0 ==> chars_less(#[trigger] self@.names[i], name@),
            forall|i: int| res.0 <= i < self@.names.len() ==> chars_less(name@, #[trigger] self@.names[i]) || (i == res.0 && res.1),
            res.1 == (res.0 < self@.names.len() && self@.names[res.0 as int] == name@),
            res.1 == self@.symbols.contains_key(name@),
            res.1 ==> self.entries()[res.0 as int].0 == name@,
            self@.wf(),
            unique_keys(self.entries()),
    {
        proof {
            use_type_invariant(self);
            self.lemma_view_wf();
        }
        let ghost names = self@.names;
        let mut i: usize = 0;
        while i < self.symbol_map.len() && str_less(self.symbol_map[i].0, name)
            invariant
                i <= self.symbol_map@.len(),
                names == keys_of(self.entries()),
                names.len() == self.symbol_map@.len(),
                forall|j: int| 0 <= j < i ==> chars_less(#[trigger] names[j], name@),
            decreases self.symbol_map@.len() - i,
        {
            assert(names[i as int] == self.symbol_map@[i as int].0@);
            i = i + 1;
        }
        let found = i < self.symbol_map.len() && str_eq(self.symbol_map[i].0, name);
        proof {
            if i < names.len() {
                assert(names[i as int] == self.symbol_map@[i as int].0@);
                assert(!chars_less(names[i as int], name@));
                lemma_chars_less_order(names[i as int], name@);
                assert forall|j: int| i <= j < names.len() implies chars_less(name@, #[trigger] names[j]) || (j == i && found) by {
                    if j > i {
                        assert(chars_less(names[i as int], names[j]));
                        if !found {
                            lemma_chars_less_trans(name@, names[i as int], names[j]);
                        } else {
                            assert(names[i as int] == name@);
                        }
                    }
                }
            }
            if self@.symbols.contains_key(name@) {
                assert(self@.names.contains(name@));
                let j = choose|j: int| 0 <= j < names.len() && names[j] == name@;
                if j < i {
                    lemma_chars_less_order(name@, name@);
                }
            }
            if found {
                assert(self@.names.contains(name@));
            }
        }
        (i, found)
    }

    /// Adds `symbol` under `name`; a name can stand for one thing only.
    fn add_symbol(&mut self, name: &'a str, symbol: Symbol) -> (res: ScopeResult<()>)
        ensures
            added(old(self)@, final(self)@, name@, symbol@, res),
            final(self)@.wf(),
    {
        proof {
            use_type_invariant(&*self);
        }
        let (pos, found) = self.find(name);
        proof {
            lemma_entries_map(self.entries());
        }
        if found {
            match &self.symbol_map[pos].1 {
                Symbol::Variable { .. } => {
                    return Err(ScopeError::DuplicateVariable { name: name.to_string() });
                },
                Symbol::Type(_) => {
                    return Err(ScopeError::DuplicateType { name: name.to_string() });
                },
            }
        }
        let ghost e = self.entries();
        let ghost x = (name@, symbol@);
        let mut entries = Vec::new();
        std::mem::swap(&mut entries, &mut self.symbol_map);
        entries.insert(pos, (name, symbol));
        proof {
            let f = entries@.map_values(|x: (&'a str, Symbol)| (x.0@, x.1@));
            assert(f =~= e.insert(pos as int, x));
            assert(strictly_sorted(keys_of(f))) by {
                assert forall|i: int, j: int| 0 <= i < j < keys_of(f).len() implies chars_less(#[trigger] keys_of(f)[i], #[trigger] keys_of(f)[j]) by {
                    if j < pos {
                        assert(keys_of(f)[i] == keys_of(e)[i] && keys_of(f)[j] == keys_of(e)[j]);
                    } else if j == pos {
                        assert(keys_of(f)[i] == keys_of(e)[i]);
                    } else if i == pos {
                        assert(keys_of(f)[j] == keys_of(e)[j - 1]);
                    } else if i < pos {
                        assert(keys_of(f)[i] == keys_of(e)[i] && keys_of(f)[j] == keys_of(e)[j - 1]);
                        lemma_chars_less_trans(keys_of(e)[i], name@, keys_of(e)[j - 1]);
                    } else {
                        assert(keys_of(f)[i] == keys_of(e)[i - 1] && keys_of(f)[j] == keys_of(e)[j - 1]);
                    }
                }
            }
            lemma_sorted_unique(f);
            lemma_entries_map_insert(e, pos as int, x);
        }
        self.symbol_map = entries;
        proof {
            self.lemma_view_wf();
        }
        Ok(())
    }

    /// Where `name` is in the list, if it is there.
    fn position(&self, name: &str) -> (r: Option<usize>)
        ensures
            r is Some <==> self@.symbols.contains_key(name@),
            r matches Some(i) ==> i < self.symbol_map@.len() && self.symbol_map@[i as int].0@ == name@
                && self.symbol_map@[i as int].1@ == self@.symbols[name@],
    {
        let (pos, found) = self.find(name);
        proof {
            lemma_entries_map(self.entries());
        }
        if found {
            Some(pos)
        } else {
            None
        }
    }

    /// Whether some name's type is still being inferred.
    #[verifier::loop_isolation(false)]
    pub fn contains_inferring_types(&self) -> (r: bool)
        ensures
            r == exists|k: Seq<char>| #[trigger] self@.symbols.contains_key(k) && self@.symbols[k].contains_inferring(),
            r == (inferring_names(self@).len() > 0),
    {
        proof {
            use_type_invariant(self);
            self.lemma_view_wf();
            lemma_entries_map(self.entries());
            law_inferring_names(self@);
        }
        let mut i: usize = 0;
        while i < self.symbol_map.len()
            invariant
                i <= self.symbol_map@.len(),
                forall|j: int| 0 <= j < i ==> !(#[trigger] self.symbol_map@[j]).1@.contains_inferring(),
            decreases self.symbol_map@.len() - i,
        {
            if self.symbol_map[i].1.contains_inferring() {
                proof {
                    let e = self.entries();
                    assert(e[i as int] == (self.symbol_map@[i as int].0@, self.symbol_map@[i as int].1@));
                    assert(entries_map(e).contains_key(e[i as int].0));
                    assert(self@.symbols.contains_key(e[i as int].0));
                }
                return true;
            }
            i = i + 1;
        }
        proof {
            let e = self.entries();
            assert forall|k: Seq<char>| #[trigger] self@.symbols.contains_key(k) implies !self@.symbols[k].contains_inferring() by {
                let j = choose|j: int| 0 <= j < e.len() && e[j].0 == k;
                assert(e[j] == (self.symbol_map@[j].0@, self.symbol_map@[j].1@));
                assert(!self.symbol_map@[j].1@.contains_inferring());
            }
        }
        false
    }

    /// The names whose types are still being inferred, in the order of their characters.
    pub fn get_inferring_names(&self) -> (names: Vec<String>)
        ensures
            strings_view(names@) == inferring_names(self@),
            strictly_sorted(strings_view(names@)),
            forall|n: Seq<char>| #[trigger] strings_view(names@).contains(n) <==> self@.symbols.contains_key(n)
                && self@.symbols[n].contains_inferring(),
    {
        proof {
            use_type_invariant(self);
            self.lemma_view_wf();
            lemma_entries_map(self.entries());
        }
        let ghost pred = inferring_pred(self@);
        let ghost all = self@.names;
        proof {
            let e = self.entries();
            assert forall|j: int| 0 <= j < all.len() implies #[trigger] self@.symbols[all[j]] == self.symbol_map@[j].1@ by {
                assert(e[j] == (self.symbol_map@[j].0@, self.symbol_map@[j].1@));
                assert(entries_map(e).contains_key(e[j].0));
            }
        }
        let mut out: Vec<String> = Vec::new();
        let mut i: usize = 0;
        while i < self.symbol_map.len()
            invariant
                i <= self.symbol_map@.len(),
                all == keys_of(self.entries()),
                all.len() == self.symbol_map@.len(),
                pred == inferring_pred(self@),
                forall|j: int| 0 <= j < all.len() ==> #[trigger] self@.symbols[all[j]] == self.symbol_map@[j].1@,
                out@.map_values(|n: String| n@) == all.take(i as int).filter(pred),
            decreases self.symbol_map@.len() - i,
        {
            proof {
                reveal(Seq::filter);
                assert(all.take(i + 1).drop_last() =~= all.take(i as int));
                assert(all.take(i + 1).last() == all[i as int]);
                assert(self@.symbols[all[i as int]] == self.symbol_map@[i as int].1@);
            }
            if self.symbol_map[i].1.contains_inferring() {
                let name = self.symbol_map[i].0.to_string();
                proof {
                    assert(all[i as int] == self.symbol_map@[i as int].0@);
                }
                out.push(name);
                proof {
                    assert(out@.map_values(|n: String| n@) =~= all.take(i as int).filter(pred).push(all[i as int]));
                }
            }
            i = i + 1;
        }
        proof {
            assert(all.take(all.len() as int) =~= all);
            law_inferring_names(self@);
        }
        out
    }
}

impl<'a> SymbolStore<'a, ScopeError> for Scope<'a> {
    /// Adds the type `ty` under `name`, which must be new to the scope.
    fn add_type(&mut self, name: &'a str, ty: TypeRequirement) -> (res: Result<(), ScopeError>)
        ensures
            added(old(self)@, final(self)@, name@, SymbolView::Type(ty@), res),
            final(self)@.wf(),
    {
        self.add_symbol(name, Symbol::Type(ty))
    }

    /// Adds the variable `id` of type `ty` under `name`, which must be new to the scope.
    fn add_variable(&mut self, id: SymbolId, name: &'a str, ty: TypeRequirement) -> (res: Result<(), ScopeError>)
        ensures
            added(old(self)@, final(self)@, name@, SymbolView::Variable { id, ty: ty@ }, res),
            final(self)@.wf(),
    {
        self.add_symbol(name, Symbol::Variable { id, ty })
    }

    /// The variable that `name` stands for.
    fn get_variable_id(&self, name: &'a str) -> (r: Option<&SymbolId>)
        ensures
            match r {
                Some(id) => self@.symbols.contains_key(name@) && (self@.symbols[name@] matches SymbolView::Variable { id: i, .. } && i == *id),
                None => !(self@.symbols.contains_key(name@) && self@.symbols[name@] is Variable),
            },
    {
        let Some(Symbol::Variable { id, ty: _ }) = self.get_symbol(name) else {
            return None;
        };
        Some(id)
    }

    /// Settles the type of the variable `name`, whose type was being inferred, to
    /// `primitive_type`, keeping its options.
    fn resolve_variable_type(&mut self, name: &'a str, primitive_type: PrimitiveType) -> (res: Result<(), ScopeError>)
        ensures
            resolved(old(self)@, final(self)@, name@, primitive_type@, res),
            final(self)@.wf(),
    {
        proof {
            use_type_invariant(&*self);
            self.lemma_view_wf();
            reveal_strlit("Type");
            reveal_strlit("Inferring");
            reveal_strlit("");
        }
        let Some(pos) = self.position(name) else {
            return Err(ScopeError::UnresolvedVariable { name: name.to_string() });
        };
        let (id, option) = match &self.symbol_map[pos].1 {
            Symbol::Type(_) => {
                return Err(ScopeError::NotVariable { name: name.to_string(), found: "Type".to_string() });
            },
            Symbol::Variable { id: _, ty: TypeRequirement::Expect(_) } => {
                return Err(
                    ScopeError::TypeConflict {
                        name: name.to_string(),
                        expected: "Inferring".to_string(),
                        found: "".to_string(),
                    },
                );
            },
            Symbol::Variable { id, ty: TypeRequirement::Inferring(option) } => (*id, *option),
        };
        let ghost e = self.entries();
        let key = self.symbol_map[pos].0;
        let symbol = Symbol::Variable {
            id,
            ty: TypeRequirement::Expect(TypeSymbol { type_kind: primitive_type, option }),
        };
        let ghost v = symbol@;
        let mut entries = Vec::new();
        std::mem::swap(&mut entries, &mut self.symbol_map);
        entries.set(pos, (key, symbol));
        proof {
            let f = entries@.map_values(|x: (&'a str, Symbol)| (x.0@, x.1@));
            assert(f =~= e.update(pos as int, (e[pos as int].0, v)));
            assert(keys_of(f) =~= keys_of(e));
            lemma_entries_map_update(e, pos as int, v);
        }
        self.symbol_map = entries;
        proof {
            self.lemma_view_wf();
        }
        Ok(())
    }

    /// What `name` stands for.
    fn get_symbol(&self, name: &'a str) -> (r: Option<&Symbol>)
        ensures
            match r {
                Some(s) => self@.symbols.contains_key(name@) && s@ == self@.symbols[name@],
                None => !self@.symbols.contains_key(name@),
            },
    {
        match self.position(name) {
            Some(i) => Some(&self.symbol_map[i].1),
            None => None,
        }
    }

    /// The known type of `name`, as a type or as the type of a variable.
    fn get_type(&self, name: &'a str) -> (r: Option<&TypeSymbol>)
        ensures
            match r {
                Some(t) => self@.declared_type(name@) == Some(t@),
                None => self@.declared_type(name@) is None,
            },
    {
        match self.get_symbol(name) {
            Some(Symbol::Type(TypeRequirement::Expect(ty))) => Some(ty),
            Some(Symbol::Variable { id: _, ty: TypeRequirement::Expect(ty) }) => Some(ty),
            _ => None,
        }
    }

    /// The options of what `name` stands for.
    fn get_type_option(&self, name: &'a str) -> (r: Option<&TypeOption>)
        ensures
            match r {
                Some(o) => self@.symbols.contains_key(name@) && *o == self@.symbols[name@].requirement().option(),
                None => !self@.symbols.contains_key(name@),
            },
    {
        match self.get_symbol(name) {
            Some(s) => Some(s.get_type_option()),
            None => None,
        }
    }

    /// Whether `name` stands for a type.
    fn is_type(&self, name: &'a str) -> (r: bool)
        ensures
            r == (self@.symbols.contains_key(name@) && self@.symbols[name@] is Type),
    {
        match self.get_symbol(name) {
            Some(s) => matches!(s, Symbol::Type(_)),
            None => false,
        }
    }

    /// Whether `name` stands for a variable.
    fn is_variable(&self, name: &'a str) -> (r: bool)
        ensures
            r == (self@.symbols.contains_key(name@) && self@.symbols[name@] is Variable),
    {
        match self.get_symbol(name) {
            Some(s) => matches!(s, Symbol::Variable { .. }),
            None => false,
        }
    }

    /// Whether `name` stands for anything.
    fn contains(&self, name: &'a str) -> (r: bool)
        ensures
            r == self@.symbols.contains_key(name@),
    {
        self.position(name).is_some()
    }
}

/// A name stands for one thing in a scope: adding a new name makes it stand for
/// what was added and leaves every other name as it was, and adding a name that
/// is already there is refused and changes nothing.
pub proof fn law_add_then_lookup(
    before: ScopeView,
    after: ScopeView,
    name: Seq<char>,
    symbol: SymbolView,
    res: ScopeResult<()>,
)
    requires
        added(before, after, name, symbol, res),
    ensures
        !before.symbols.contains_key(name) ==> {
            &&& res is Ok
            &&& after.symbols.contains_key(name)
            &&& after.symbols[name] == symbol
            &&& forall|k: Seq<char>| k != name ==> (#[trigger] after.symbols.contains_key(k) == before.symbols.contains_key(k)
                && (before.symbols.contains_key(k) ==> after.symbols[k] == before.symbols[k]))
        },
        before.symbols.contains_key(name) ==> res is Err && after == before,
{
}

/// The type of a variable is settled once: after it was settled, settling it
/// again is refused as a conflict and changes nothing, and the variable's known
/// type is the one it was settled to, with its options kept.
pub proof fn law_resolve_once(
    s0: ScopeView,
    s1: ScopeView,
    s2: ScopeView,
    name: Seq<char>,
    t1: TypeView,
    t2: TypeView,
    r1: ScopeResult<()>,
    r2: ScopeResult<()>,
)
    requires
        resolved(s0, s1, name, t1, r1),
        resolved(s1, s2, name, t2, r2),
        r1 is Ok,
    ensures
        s1.declared_type(name) == Some(TypeSymbolView { type_kind: t1, option: s0.symbols[name].requirement().option() }),
        r2 matches Err(ScopeError::TypeConflict { .. }),
        s2 == s1,
{
}

} // verus!
