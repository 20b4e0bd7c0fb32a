pub mod errors;
pub mod index_map;

use self::errors::NameSpaceError;
use self::index_map::{
    default_hasher, field_entries, field_map_insert, field_map_values, key_index, new_field_map, new_variant_map,
    variant_entries, variant_map_get_mut, variant_map_insert, variant_map_values, FieldMap, VariantMap,
};
use crate::name_map::{named_contains, named_get, named_get_mut, named_insert, named_map};
use crate::primitive::{types_view, PrimitiveType, ToPrimitiveType, TypeView};
use crate::scope::{TypeOption, TypeSymbol, TypeSymbolView};
use vstd::prelude::*;

verus! {

pub type NameSpaceResult<T> = Result<T, NameSpaceError>;

pub open spec fn symbols_view(s: Seq<TypeSymbol>) -> Seq<TypeSymbolView> {
    s.map_values(|t: TypeSymbol| t@)
}

/// A function: its number, its name, what it gives back and the types of its arguments.
#[derive(Debug)]
pub struct FunctionItem<'a> {
    pub id: usize,
    pub name: &'a str,
    pub return_type: TypeSymbol,
    pub arguments: Vec<TypeSymbol>,
}

impl<'a> FunctionItem<'a> {
    /// A function without arguments yet.
    pub fn new(id: usize, name: &'a str, return_type: TypeSymbol) -> (f: Self)
        ensures
            f.id == id,
            f.name == name,
            f.return_type == return_type,
            f.arguments@ == Seq::<TypeSymbol>::empty(),
    {
        Self { id, name, return_type, arguments: Vec::new() }
    }

    /// Adds the next argument.
    pub fn add_argument(&mut self, type_symbol: TypeSymbol) -> (res: NameSpaceResult<()>)
        ensures
            res is Ok,
            final(self).arguments@ == old(self).arguments@.push(type_symbol),
            final(self).id == old(self).id,
            final(self).name == old(self).name,
            final(self).return_type == old(self).return_type,
    {
        self.arguments.push(type_symbol);
        Ok(())
    }

    pub fn get_return_type(&self) -> (t: &TypeSymbol)
        ensures
            *t == self.return_type,
    {
        &self.return_type
    }

    pub fn get_arguments(&self) -> (a: &[TypeSymbol])
        ensures
            a@ == self.arguments@,
    {
        self.arguments.as_slice()
    }

    /// The type of the function: what it gives back, from the types of its arguments.
    pub open spec fn function_type(&self) -> TypeView {
        TypeView::Function {
            return_type: Box::new(self.return_type@.type_kind),
            arguments: symbols_view(self.arguments@).map_values(|t: TypeSymbolView| t.type_kind),
        }
    }
}

impl<'a> ToPrimitiveType for FunctionItem<'a> {
    fn to_type(&self) -> (t: PrimitiveType)
        ensures
            t@ == self.function_type(),
    {
        let mut arguments: Vec<PrimitiveType> = Vec::new();
        let mut i: usize = 0;
        while i < self.arguments.len()
            invariant
                i <= self.arguments@.len(),
                types_view(arguments@) == symbols_view(self.arguments@.take(i as int)).map_values(|t: TypeSymbolView| t.type_kind),
            decreases self.arguments@.len() - i,
        {
            let t = self.arguments[i].type_kind.clone();
            proof {
                assert(arguments@.push(t).drop_last() =~= arguments@);
                assert(symbols_view(self.arguments@.take(i + 1)).map_values(|t: TypeSymbolView| t.type_kind)
                    =~= symbols_view(self.arguments@.take(i as int)).map_values(|t: TypeSymbolView| t.type_kind).push(t@));
            }
            arguments.push(t);
            i = i + 1;
        }
        proof {
            assert(self.arguments@.take(self.arguments@.len() as int) =~= self.arguments@);
        }
        PrimitiveType::Function { return_type: Box::new(self.return_type.type_kind.clone()), arguments }
    }
}

impl<'a> Clone for FunctionItem<'a> {
    fn clone(&self) -> (f: Self)
        ensures
            f.id == self.id,
            f.name == self.name,
            f.return_type@ == self.return_type@,
            symbols_view(f.arguments@) == symbols_view(self.arguments@),
    {
        let mut arguments: Vec<TypeSymbol> = Vec::new();
        let mut i: usize = 0;
        while i < self.arguments.len()
            invariant
                i <= self.arguments@.len(),
                symbols_view(arguments@) == symbols_view(self.arguments@.take(i as int)),
            decreases self.arguments@.len() - i,
        {
            let t = self.arguments[i].clone();
            proof {
                assert(symbols_view(arguments@.push(t)) =~= symbols_view(arguments@).push(t@));
                assert(symbols_view(self.arguments@.take(i + 1)) =~= symbols_view(self.arguments@.take(i as int)).push(
                    self.arguments@[i as int]@,
                ));
            }
            arguments.push(t);
            i = i + 1;
        }
        proof {
            assert(self.arguments@.take(self.arguments@.len() as int) =~= self.arguments@);
        }
        Self { id: self.id, name: self.name, return_type: self.return_type.clone(), arguments }
    }
}


/// Adds items to a store of items.
pub trait ItemStore<'a, E> {
    fn add_function(&mut self, function_item: FunctionItem<'a>) -> Result<(), E>;

    fn add_struct(&mut self, struct_item: StructItem<'a>) -> Result<(), E>;

    fn add_enumeration(&mut self, enum_item: EnumItem<'a>) -> Result<(), E>;
}

/// Finds items of a store of items by name.
pub trait ItemStoreReader<'a> {
    fn get_function(&self, name: &'a str) -> Option<&FunctionItem<'a>>;

    fn get_struct(&self, name: &'a str) -> Option<&StructItem<'a>>;

    fn get_enumeration(&self, name: &'a str) -> Option<&EnumItem<'a>>;
}

/// The type of a structure with these fields: its elements in field order.
pub open spec fn struct_type(fields: Seq<(Seq<char>, TypeSymbolView)>) -> TypeView {
    TypeView::Struct { elements: fields.map_values(|f: (Seq<char>, TypeSymbolView)| f.1.type_kind) }
}

/// The type of an enumeration with these variants: each variant a structure of its fields.
pub open spec fn enum_type(variants: Seq<(Seq<char>, Seq<(Seq<char>, TypeSymbolView)>)>) -> TypeView {
    TypeView::Enumeration {
        variants: variants.map_values(|v: (Seq<char>, Seq<(Seq<char>, TypeSymbolView)>)| struct_type(v.1)),
    }
}

/// The element types of the fields, in order.
fn field_types(fields: &FieldMap) -> (types: Vec<PrimitiveType>)
    ensures
        types_view(types@) == field_entries(*fields).map_values(|f: (Seq<char>, TypeSymbolView)| f.1.type_kind),
{
    let values = field_map_values(fields);
    let ghost entries = field_entries(*fields);
    let mut types: Vec<PrimitiveType> = Vec::new();
    let mut i: usize = 0;
    while i < values.len()
        invariant
            i <= values@.len(),
            values@.len() == entries.len(),
            forall|j: int| 0 <= j < values@.len() ==> (#[trigger] values@[j])@ == entries[j].1,
            types_view(types@) == entries.take(i as int).map_values(|f: (Seq<char>, TypeSymbolView)| f.1.type_kind),
        decreases values@.len() - i,
    {
        let t = values[i].type_kind.clone();
        proof {
            assert(types@.push(t).drop_last() =~= types@);
            assert(entries.take(i + 1).map_values(|f: (Seq<char>, TypeSymbolView)| f.1.type_kind)
                =~= entries.take(i as int).map_values(|f: (Seq<char>, TypeSymbolView)| f.1.type_kind).push(t@));
        }
        types.push(t);
        i = i + 1;
    }
    proof {
        assert(entries.take(entries.len() as int) =~= entries);
    }
    types
}

/// A structure: its name and its fields in order.
#[derive(Debug)]
pub struct StructItem<'a> {
    pub name: &'a str,
    pub fields: FieldMap<'a>,
}

impl<'a> StructItem<'a> {
    /// A structure without fields yet.
    pub fn new(name: &'a str) -> (s: Self)
        ensures
            s.name == name,
            field_entries(s.fields) == Seq::<(Seq<char>, TypeSymbolView)>::empty(),
    {
        Self { name, fields: new_field_map(default_hasher()) }
    }

    /// Adds a field. A field name given twice is refused, and the field then has the
    /// type given last.
    pub fn add_field(&mut self, name: &'a str, type_symbol: TypeSymbol) -> (res: NameSpaceResult<()>)
        ensures
            final(self).name == old(self).name,
            match key_index(field_entries(old(self).fields), name@) {
                Some(i) => {
                    &&& field_entries(final(self).fields) == field_entries(old(self).fields).update(i, (name@, type_symbol@))
                    &&& res matches Err(NameSpaceError::DuplicateStructField { name: n }) && n@ == name@
                },
                None => {
                    &&& field_entries(final(self).fields) == field_entries(old(self).fields).push((name@, type_symbol@))
                    &&& res is Ok
                },
            },
    {
        if field_map_insert(&mut self.fields, name, type_symbol).is_some() {
            return Err(NameSpaceError::DuplicateStructField { name: name.to_string() });
        }
        Ok(())
    }
}

impl<'a> ToPrimitiveType for StructItem<'a> {
    fn to_type(&self) -> (t: PrimitiveType)
        ensures
            t@ == struct_type(field_entries(self.fields)),
    {
        PrimitiveType::Struct { elements: field_types(&self.fields) }
    }
}

/// An enumeration: its name and its variants in order, each with its fields in order.
#[derive(Debug)]
pub struct EnumItem<'a> {
    pub name: &'a str,
    pub variants: VariantMap<'a>,
}

impl<'a> EnumItem<'a> {
    /// An enumeration without variants yet.
    pub fn new(name: &'a str) -> (e: Self)
        ensures
            e.name == name,
            variant_entries(e.variants) == Seq::<(Seq<char>, Seq<(Seq<char>, TypeSymbolView)>)>::empty(),
    {
        Self { name, variants: new_variant_map(default_hasher()) }
    }

    /// Adds a variant without fields. A variant name given twice is refused, and
    /// the variant then has no fields.
    pub fn add_variant(&mut self, variant_name: &'a str) -> (res: NameSpaceResult<()>)
        ensures
            final(self).name == old(self).name,
            match key_index(variant_entries(old(self).variants), variant_name@) {
                Some(i) => {
                    &&& variant_entries(final(self).variants) == variant_entries(old(self).variants).update(
                        i,
                        (variant_name@, Seq::<(Seq<char>, TypeSymbolView)>::empty()),
                    )
                    &&& res matches Err(NameSpaceError::DuplicateEnumVariant { name: n }) && n@ == variant_name@
                },
                None => {
                    &&& variant_entries(final(self).variants) == variant_entries(old(self).variants).push(
                        (variant_name@, Seq::<(Seq<char>, TypeSymbolView)>::empty()),
                    )
                    &&& res is Ok
                },
            },
    {
        if variant_map_insert(&mut self.variants, variant_name, new_field_map(default_hasher())).is_some() {
            return Err(NameSpaceError::DuplicateEnumVariant { name: variant_name.to_string() });
        }
        Ok(())
    }

    /// Adds a field to a variant that is there. A field name given twice in a
    /// variant is refused, and the field then has the type given last.
    pub fn add_variant_field(&mut self, variant_name: &'a str, field_name: &'a str, field_type: TypeSymbol) -> (res: NameSpaceResult<()>)
        ensures
            final(self).name == old(self).name,
            match key_index(variant_entries(old(self).variants), variant_name@) {
                None => {
                    &&& variant_entries(final(self).variants) == variant_entries(old(self).variants)
                    &&& res matches Err(NameSpaceError::UnresolvedEnumVariant { name: n }) && n@ == variant_name@
                },
                Some(i) => {
                    let fields = variant_entries(old(self).variants)[i].1;
                    match key_index(fields, field_name@) {
                        Some(j) => {
                            &&& variant_entries(final(self).variants) == variant_entries(old(self).variants).update(
                                i,
                                (variant_name@, fields.update(j, (field_name@, field_type@))),
                            )
                            &&& res matches Err(NameSpaceError::DuplicateEnumVariant { name: n }) && n@ == field_name@
                        },
                        None => {
                            &&& variant_entries(final(self).variants) == variant_entries(old(self).variants).update(
                                i,
                                (variant_name@, fields.push((field_name@, field_type@))),
                            )
                            &&& res is Ok
                        },
                    }
                },
            },
    {
        let Some(variant) = variant_map_get_mut(&mut self.variants, variant_name) else {
            return Err(NameSpaceError::UnresolvedEnumVariant { name: variant_name.to_string() });
        };
        if field_map_insert(variant, field_name, field_type).is_some() {
            return Err(NameSpaceError::DuplicateEnumVariant { name: field_name.to_string() });
        }
        Ok(())
    }
}

impl<'a> ToPrimitiveType for EnumItem<'a> {
    fn to_type(&self) -> (t: PrimitiveType)
        ensures
            t@ == enum_type(variant_entries(self.variants)),
    {
        let maps = variant_map_values(&self.variants);
        let ghost entries = variant_entries(self.variants);
        let mut variants: Vec<PrimitiveType> = Vec::new();
        let mut i: usize = 0;
        while i < maps.len()
            invariant
                i <= maps@.len(),
                maps@.len() == entries.len(),
                forall|j: int| 0 <= j < maps@.len() ==> field_entries(*#[trigger] maps@[j]) == entries[j].1,
                types_view(variants@) == entries.take(i as int).map_values(
                    |v: (Seq<char>, Seq<(Seq<char>, TypeSymbolView)>)| struct_type(v.1),
                ),
            decreases maps@.len() - i,
        {
            let t = PrimitiveType::Struct { elements: field_types(maps[i]) };
            proof {
                assert(field_entries(*maps@[i as int]) == entries[i as int].1);
                assert(variants@.push(t).drop_last() =~= variants@);
                assert(entries.take(i + 1).map_values(|v: (Seq<char>, Seq<(Seq<char>, TypeSymbolView)>)| struct_type(v.1))
                    =~= entries.take(i as int).map_values(|v: (Seq<char>, Seq<(Seq<char>, TypeSymbolView)>)| struct_type(v.1)).push(t@));
            }
            variants.push(t);
            i = i + 1;
        }
        proof {
            assert(entries.take(entries.len() as int) =~= entries);
        }
        PrimitiveType::Enumeration { variants }
    }
}

/// An item of a module.
#[derive(Debug)]
pub enum ItemSymbol<'a> {
    Function(FunctionItem<'a>),
    Struct(StructItem<'a>),
    Enumeration(EnumItem<'a>),
}

impl<'a> ItemSymbol<'a> {
    pub fn get_function(&self) -> (f: Option<&FunctionItem<'a>>)
        ensures
            match self {
                ItemSymbol::Function(item) => f == Some(item),
                _ => f is None,
            },
    {
        let Self::Function(item) = self else {
            return None;
        };
        Some(item)
    }

    pub fn get_struct(&self) -> (s: Option<&StructItem<'a>>)
        ensures
            match self {
                ItemSymbol::Struct(item) => s == Some(item),
                _ => s is None,
            },
    {
        let Self::Struct(item) = self else {
            return None;
        };
        Some(item)
    }

    pub fn get_enumeration(&self) -> (e: Option<&EnumItem<'a>>)
        ensures
            match self {
                ItemSymbol::Enumeration(item) => e == Some(item),
                _ => e is None,
            },
    {
        let Self::Enumeration(item) = self else {
            return None;
        };
        Some(item)
    }

    /// The type of the item.
    pub open spec fn item_type(&self) -> TypeView {
        match self {
            ItemSymbol::Function(f) => f.function_type(),
            ItemSymbol::Struct(s) => struct_type(field_entries(s.fields)),
            ItemSymbol::Enumeration(e) => enum_type(variant_entries(e.variants)),
        }
    }
}

impl<'a> ToPrimitiveType for ItemSymbol<'a> {
    fn to_type(&self) -> (t: PrimitiveType)
        ensures
            t@ == self.item_type(),
    {
        match self {
            Self::Enumeration(enum_item) => enum_item.to_type(),
            Self::Struct(struct_item) => struct_item.to_type(),
            Self::Function(function_item) => function_item.to_type(),
        }
    }
}

/// An item of a module together with its type.
#[derive(Debug)]
pub struct SymbolTable<'a> {
    item_symbol: ItemSymbol<'a>,
    type_symbol: TypeSymbol,
}

impl<'a> SymbolTable<'a> {
    /// The item.
    pub closed spec fn item(&self) -> ItemSymbol<'a> {
        self.item_symbol
    }

    /// The type of the item.
    pub closed spec fn type_of(&self) -> TypeSymbolView {
        self.type_symbol@
    }

    fn new(item: ItemSymbol<'a>) -> (t: Self)
        ensures
            t.item() == item,
            t.type_of() == (TypeSymbolView { type_kind: item.item_type(), option: TypeOption::plain() }),
    {
        let type_symbol = TypeSymbol::new(item.to_type());
        Self { item_symbol: item, type_symbol }
    }

    fn get_type(&self) -> (t: &TypeSymbol)
        ensures
            t@ == self.type_of(),
    {
        &self.type_symbol
    }

    fn get_item(&self) -> (i: &ItemSymbol<'a>)
        ensures
            *i == self.item(),
    {
        &self.item_symbol
    }
}

impl<'a> ItemStoreReader<'a> for SymbolTable<'a> {
    /// The item, if it is a function; the name is not looked at.
    fn get_function(&self, name: &'a str) -> (f: Option<&FunctionItem<'a>>)
        ensures
            match self.item() {
                ItemSymbol::Function(item) => f == Some(&item),
                _ => f is None,
            },
    {
        self.item_symbol.get_function()
    }

    /// The item, if it is a structure; the name is not looked at.
    fn get_struct(&self, name: &'a str) -> (s: Option<&StructItem<'a>>)
        ensures
            match self.item() {
                ItemSymbol::Struct(item) => s == Some(&item),
                _ => s is None,
            },
    {
        self.item_symbol.get_struct()
    }

    /// The item, if it is an enumeration; the name is not looked at.
    fn get_enumeration(&self, name: &'a str) -> (e: Option<&EnumItem<'a>>)
        ensures
            match self.item() {
                ItemSymbol::Enumeration(item) => e == Some(&item),
                _ => e is None,
            },
    {
        self.item_symbol.get_enumeration()
    }
}

/// A module: its name, its child modules and its items, each by name.
#[derive(Debug)]
pub struct Module<'a> {
    module_name: &'a str,
    children: Vec<(&'a str, Box<Module<'a>>)>,
    items: Vec<(&'a str, SymbolTable<'a>)>,
}

impl<'a> Module<'a> {
    pub closed spec fn name(&self) -> Seq<char> {
        self.module_name@
    }

    /// The child modules by name.
    pub closed spec fn children(&self) -> Map<Seq<char>, Box<Module<'a>>> {
        named_map(self.children@)
    }

    /// The items by name.
    pub closed spec fn items(&self) -> Map<Seq<char>, SymbolTable<'a>> {
        named_map(self.items@)
    }
}

/// The module reached from `m` by following the names of `path` as long as
/// there is a child of that name.
pub open spec fn descend<'a>(m: Module<'a>, path: Seq<Seq<char>>) -> Module<'a>
    decreases path.len(),
{
    if path.len() > 0 && m.children().contains_key(path[0]) {
        descend(*m.children()[path[0]], path.drop_first())
    } else {
        m
    }
}

/// The module that a path leads to: itself for the empty path; otherwise the first
/// name must be a child, after which the path is followed as long as it can be.
pub open spec fn module_from_path<'a>(m: Module<'a>, path: Seq<Seq<char>>) -> Option<Module<'a>> {
    if path.len() == 0 {
        Some(m)
    } else if m.children().contains_key(path[0]) {
        Some(descend(*m.children()[path[0]], path.drop_first()))
    } else {
        None
    }
}

/// `new` is `old` with the module that `descend` reaches along `path` changed from
/// `target_old` to `target_new`, and nothing else changed.
pub open spec fn changed_along<'a>(
    old: Module<'a>,
    new: Module<'a>,
    path: Seq<Seq<char>>,
    target_old: Module<'a>,
    target_new: Module<'a>,
) -> bool
    decreases path.len(),
{
    if path.len() > 0 && old.children().contains_key(path[0]) {
        &&& new.name() == old.name()
        &&& new.items() == old.items()
        &&& new.children().contains_key(path[0])
        &&& new.children().remove(path[0]) == old.children().remove(path[0])
        &&& changed_along(*old.children()[path[0]], *new.children()[path[0]], path.drop_first(), target_old, target_new)
    } else {
        old == target_old && new == target_new
    }
}

/// `new` is `old` after making sure that every name of `path`, in turn, is a child.
pub open spec fn has_added_path<'a>(old: Module<'a>, new: Module<'a>, path: Seq<Seq<char>>) -> bool
    decreases path.len(),
{
    &&& new.name() == old.name()
    &&& new.items() == old.items()
    &&& if path.len() == 0 {
        new.children() == old.children()
    } else {
        &&& new.children().contains_key(path[0])
        &&& new.children().remove(path[0]) == old.children().remove(path[0])
        &&& if old.children().contains_key(path[0]) {
            has_added_path(*old.children()[path[0]], *new.children()[path[0]], path.drop_first())
        } else {
            is_new_path(*new.children()[path[0]], path)
        }
    }
}

/// `m` is a module made fresh for the first name of `path`, holding fresh modules
/// along the rest of the path and nothing else.
pub open spec fn is_new_path<'a>(m: Module<'a>, path: Seq<Seq<char>>) -> bool
    decreases path.len(),
{
    &&& path.len() > 0
    &&& m.name() == path[0]
    &&& m.items() == Map::<Seq<char>, SymbolTable<'a>>::empty()
    &&& if path.len() == 1 {
        m.children() == Map::<Seq<char>, Box<Module<'a>>>::empty()
    } else {
        &&& m.children().dom() == set![path[1]]
        &&& is_new_path(*m.children()[path[1]], path.drop_first())
    }
}

pub open spec fn names_view<'a>(s: Seq<&'a str>) -> Seq<Seq<char>> {
    s.map_values(|x: &'a str| x@)
}

impl<'a> Module<'a> {
    /// A module without children or items.
    pub fn new(name: &'a str) -> (m: Self)
        ensures
            m.name() == name@,
            m.children() == Map::<Seq<char>, Box<Module<'a>>>::empty(),
            m.items() == Map::<Seq<char>, SymbolTable<'a>>::empty(),
    {
        Self { module_name: name, children: Vec::new(), items: Vec::new() }
    }

    /// Adds a child module, unless there is one of that name.
    pub fn add_module(&mut self, name: &'a str)
        ensures
            has_added_path(*old(self), *final(self), seq![name@]),
    {
        proof {
            reveal_with_fuel(has_added_path, 2);
        }
        if !named_contains(&self.children, name) {
            let m = Box::new(Module::new(name));
            let ghost fresh = *m;
            named_insert(&mut self.children, name, m);
            proof {
                assert(self.children().remove(name@) =~= old(self).children().remove(name@));
                assert(is_new_path(fresh, seq![name@]));
            }
        }
        proof {
            assert(seq![name@][0] == name@);
            assert(seq![name@].drop_first() =~= Seq::<Seq<char>>::empty());
        }
    }

    /// Adds the modules along the path, each a child of the one before, where
    /// they are not there yet.
    pub fn add_modules(&mut self, child_path: &[&'a str])
        ensures
            has_added_path(*old(self), *final(self), names_view(child_path@)),
    {
        self.add_modules_from(child_path, 0);
        assert(names_view(child_path@).skip(0) =~= names_view(child_path@));
    }

    fn add_modules_from(&mut self, path: &[&'a str], i: usize)
        requires
            i <= path@.len(),
        ensures
            has_added_path(*old(self), *final(self), names_view(path@).skip(i as int)),
        decreases path@.len() - i,
    {
        let ghost rest = names_view(path@).skip(i as int);
        if i == path.len() {
            return;
        }
        let first = path[i];
        assert(rest[0] == first@);
        assert(rest.drop_first() =~= names_view(path@).skip(i + 1));
        let ghost existed = self.children().contains_key(first@);
        if !named_contains(&self.children, first) {
            named_insert(&mut self.children, first, Box::new(Module::new(first)));
        }
        let ghost before = *self;
        let child = named_get_mut(&mut self.children, first).unwrap();
        let ghost old_child = **child;
        child.add_modules_from(path, i + 1);
        let ghost new_child = **child;
        proof {
            assert(has_added_path(old_child, new_child, rest.drop_first()));
            assert(self.children() == before.children().insert(first@, Box::new(new_child)));
            assert(self.children().remove(first@) =~= old(self).children().remove(first@));
            if !existed {
                assert(old_child.name() == first@);
                assert(old_child.items() == Map::<Seq<char>, SymbolTable<'a>>::empty());
                assert(old_child.children() == Map::<Seq<char>, Box<Module<'a>>>::empty());
                if rest.len() == 1 {
                    assert(rest.drop_first().len() == 0);
                } else {
                    assert(rest.drop_first()[0] == rest[1]);
                    assert(new_child.children().remove(rest[1]) == old_child.children().remove(rest[1]));
                    assert(old_child.children().remove(rest[1]) =~= Map::<Seq<char>, Box<Module<'a>>>::empty());
                    assert forall|k: Seq<char>| new_child.children().dom().contains(k) <==> k == rest[1] by {
                        if k != rest[1] && new_child.children().dom().contains(k) {
                            assert(new_child.children().remove(rest[1]).contains_key(k));
                        }
                    }
                    assert(new_child.children().dom() =~= set![rest[1]]);
                }
                assert(is_new_path(new_child, rest));
            }
        }
    }

    /// The type of the item `name`.
    pub fn get_type(&self, name: &'a str) -> (t: Option<&TypeSymbol>)
        ensures
            match t {
                Some(t) => self.items().contains_key(name@) && t@ == self.items()[name@].type_of(),
                None => !self.items().contains_key(name@),
            },
    {
        match named_get(&self.items, name) {
            Some(table) => Some(table.get_type()),
            None => None,
        }
    }

    /// The item `name`.
    pub fn get_item(&self, name: &'a str) -> (i: Option<&ItemSymbol<'a>>)
        ensures
            match i {
                Some(i) => self.items().contains_key(name@) && *i == self.items()[name@].item(),
                None => !self.items().contains_key(name@),
            },
    {
        match named_get(&self.items, name) {
            Some(table) => Some(table.get_item()),
            None => None,
        }
    }

    /// The child module `name`, to change in place.
    pub fn get_mut_child_module(&mut self, name: &'a str) -> (m: Option<&mut Self>)
        ensures
            m matches Some(c) ==> old(self).children().contains_key(name@),
            m matches Some(c) ==> *c == *old(self).children()[name@],
            m matches Some(c) ==> final(self).children() == old(self).children().insert(name@, Box::new(*final(c))),
            m matches Some(c) ==> changed_along(*old(self), *final(self), seq![name@], *c, *final(c)),
            m is None ==> !old(self).children().contains_key(name@) && *final(self) == *old(self),
    {
        proof {
            reveal_with_fuel(changed_along, 2);
            assert(seq![name@][0] == name@);
            assert(seq![name@].drop_first() =~= Seq::<Seq<char>>::empty());
        }
        match named_get_mut(&mut self.children, name) {
            Some(c) => {
                proof {
                    let before = *old(self);
                    assert forall|after: Module<'a>, c_new: Module<'a>|
                        after.name() == before.name() && after.items() == before.items()
                            && after.children() == before.children().insert(name@, Box::new(c_new)) implies
                        #[trigger] changed_along(before, after, seq![name@], *before.children()[name@], c_new) by {
                        assert(after.children().remove(name@) =~= before.children().remove(name@));
                    }
                }
                Some(&mut **c)
            },
            None => None,
        }
    }

    /// The child module `name`.
    pub fn get_module(&self, name: &'a str) -> (m: Option<&Module<'a>>)
        ensures
            match m {
                Some(c) => self.children().contains_key(name@) && *c == *self.children()[name@],
                None => !self.children().contains_key(name@),
            },
    {
        match named_get(&self.children, name) {
            Some(c) => Some(&**c),
            None => None,
        }
    }

    /// The child module `name`, to change in place.
    pub fn get_mut_module(&mut self, name: &'a str) -> (m: Option<&mut Module<'a>>)
        ensures
            match m {
                Some(c) => old(self).children().contains_key(name@) && *c == *old(self).children()[name@]
                    && changed_along(*old(self), *final(self), seq![name@], *c, *final(c)),
                None => !old(self).children().contains_key(name@) && *final(self) == *old(self),
            },
    {
        self.get_mut_child_module(name)
    }

    fn descend_from(&self, path: &[&'a str], i: usize) -> (m: &Self)
        requires
            i <= path@.len(),
        ensures
            *m == descend(*self, names_view(path@).skip(i as int)),
        decreases path@.len() - i,
    {
        let ghost rest = names_view(path@).skip(i as int);
        if i == path.len() {
            return self;
        }
        proof {
            assert(rest[0] == path@[i as int]@);
            assert(rest.drop_first() =~= names_view(path@).skip(i + 1));
        }
        match named_get(&self.children, path[i]) {
            Some(c) => c.descend_from(path, i + 1),
            None => self,
        }
    }

    /// The module that the path leads to: the first name must be a child; after
    /// it the path is followed as long as there is a child of the next name.
    pub fn get_module_from_path(&self, child_path: &[&'a str]) -> (m: Option<&Self>)
        ensures
            match m {
                Some(m) => module_from_path(*self, names_view(child_path@)) == Some(*m),
                None => module_from_path(*self, names_view(child_path@)) is None,
            },
    {
        let ghost names = names_view(child_path@);
        if child_path.len() == 0 {
            return Some(self);
        }
        proof {
            assert(names[0] == child_path@[0]@);
            assert(names.drop_first() =~= names_view(child_path@).skip(1));
        }
        match named_get(&self.children, child_path[0]) {
            Some(c) => Some(c.descend_from(child_path, 1)),
            None => None,
        }
    }

    fn descend_from_mut(&mut self, path: &[&'a str], i: usize) -> (m: &mut Self)
        requires
            i <= path@.len(),
        ensures
            *m == descend(*old(self), names_view(path@).skip(i as int)),
            changed_along(*old(self), *final(self), names_view(path@).skip(i as int), *m, *final(m)),
        decreases path@.len() - i,
    {
        let ghost rest = names_view(path@).skip(i as int);
        if i == path.len() {
            return self;
        }
        proof {
            assert(rest[0] == path@[i as int]@);
            assert(rest.drop_first() =~= names_view(path@).skip(i + 1));
        }
        if !named_contains(&self.children, path[i]) {
            return self;
        }
        proof {
            let before = *self;
            let first = rest[0];
            assert forall|after: Module<'a>, t_old: Module<'a>, t_new: Module<'a>|
                after.name() == before.name() && after.items() == before.items() && after.children().contains_key(first)
                    && after.children() == before.children().insert(first, after.children()[first])
                    && changed_along(*before.children()[first], *after.children()[first], rest.drop_first(), t_old, t_new) implies
                #[trigger] changed_along(before, after, rest, t_old, t_new) by {
                assert(after.children().remove(first) =~= before.children().remove(first));
            }
        }
        let c = named_get_mut(&mut self.children, path[i]).unwrap();
        c.descend_from_mut(path, i + 1)
    }

    /// The module that the path leads to, to change in place; see `get_module_from_path`.
    pub fn get_mut_module_from_path(&mut self, child_path: &[&'a str]) -> (m: Option<&mut Self>)
        ensures
            match m {
                Some(m) => module_from_path(*old(self), names_view(child_path@)) == Some(*m)
                    && changed_along(*old(self), *final(self), names_view(child_path@), *m, *final(m)),
                None => module_from_path(*old(self), names_view(child_path@)) is None && *final(self) == *old(self),
            },
    {
        let ghost names = names_view(child_path@);
        if child_path.len() == 0 {
            return Some(self);
        }
        proof {
            assert(names[0] == child_path@[0]@);
            assert(names.drop_first() =~= names_view(child_path@).skip(1));
        }
        if !named_contains(&self.children, child_path[0]) {
            return None;
        }
        proof {
            let before = *self;
            let first = names[0];
            assert forall|after: Module<'a>, t_old: Module<'a>, t_new: Module<'a>|
                after.name() == before.name() && after.items() == before.items() && after.children().contains_key(first)
                    && after.children() == before.children().insert(first, after.children()[first])
                    && changed_along(*before.children()[first], *after.children()[first], names.drop_first(), t_old, t_new) implies
                #[trigger] changed_along(before, after, names, t_old, t_new) by {
                assert(after.children().remove(first) =~= before.children().remove(first));
            }
        }
        let c = named_get_mut(&mut self.children, child_path[0]).unwrap();
        Some(c.descend_from_mut(child_path, 1))
    }

    /// Adds an item under `name`, replacing one that was there; tells whether one was.
    fn add_item(&mut self, name: &'a str, item: ItemSymbol<'a>) -> (replaced: bool)
        ensures
            replaced == old(self).items().contains_key(name@),
            final(self).items().contains_key(name@),
            final(self).items()[name@].item() == item,
            final(self).items()[name@].type_of() == (TypeSymbolView { type_kind: item.item_type(), option: TypeOption::plain() }),
            final(self).items().remove(name@) == old(self).items().remove(name@),
            final(self).children() == old(self).children(),
            final(self).name() == old(self).name(),
    {
        let table = SymbolTable::new(item);
        let pre = named_insert(&mut self.items, name, table);
        proof {
            assert(self.items().remove(name@) =~= old(self).items().remove(name@));
        }
        pre.is_some()
    }
}

/// `new` is `old` with `item` standing under `name` and nothing else changed;
/// `refused` holds exactly when the name was there before, and otherwise the
/// result is `Ok`.
pub open spec fn item_added<'a>(old: Module<'a>, new: Module<'a>, name: Seq<char>, item: ItemSymbol<'a>, res: NameSpaceResult<()>, refused: bool) -> bool {
    &&& new.items().contains_key(name)
    &&& new.items()[name].item() == item
    &&& new.items()[name].type_of() == (TypeSymbolView { type_kind: item.item_type(), option: TypeOption::plain() })
    &&& new.items().remove(name) == old.items().remove(name)
    &&& new.children() == old.children()
    &&& new.name() == old.name()
    &&& (old.items().contains_key(name) <==> refused)
    &&& (!refused ==> res is Ok)
}

impl<'a> ItemStore<'a, NameSpaceError> for Module<'a> {
    /// Adds a function; a name already there is refused, and the function then stands under it.
    fn add_function(&mut self, function_item: FunctionItem<'a>) -> (res: Result<(), NameSpaceError>)
        ensures
            item_added(*old(self), *final(self), function_item.name@, ItemSymbol::Function(function_item), res,
                res matches Err(NameSpaceError::DuplicateFunction { name }) && name@ == function_item.name@),
    {
        let function_name = function_item.name;
        if self.add_item(function_name, ItemSymbol::Function(function_item)) {
            return Err(NameSpaceError::DuplicateFunction { name: function_name.to_string() });
        }
        Ok(())
    }

    /// Adds a structure; a name already there is refused, and the structure then stands under it.
    fn add_struct(&mut self, struct_item: StructItem<'a>) -> (res: Result<(), NameSpaceError>)
        ensures
            item_added(*old(self), *final(self), struct_item.name@, ItemSymbol::Struct(struct_item), res,
                res matches Err(NameSpaceError::DuplicateStruct { name }) && name@ == struct_item.name@),
    {
        let struct_name = struct_item.name;
        if self.add_item(struct_name, ItemSymbol::Struct(struct_item)) {
            return Err(NameSpaceError::DuplicateStruct { name: struct_name.to_string() });
        }
        Ok(())
    }

    /// Adds an enumeration; a name already there is refused, and the enumeration then stands under it.
    fn add_enumeration(&mut self, enum_item: EnumItem<'a>) -> (res: Result<(), NameSpaceError>)
        ensures
            item_added(*old(self), *final(self), enum_item.name@, ItemSymbol::Enumeration(enum_item), res,
                res matches Err(NameSpaceError::DuplicateEnumeration { name }) && name@ == enum_item.name@),
    {
        let enum_name = enum_item.name;
        if self.add_item(enum_name, ItemSymbol::Enumeration(enum_item)) {
            return Err(NameSpaceError::DuplicateEnumeration { name: enum_name.to_string() });
        }
        Ok(())
    }
}

impl<'a> ItemStoreReader<'a> for Module<'a> {
    /// The function named `name`.
    fn get_function(&self, name: &'a str) -> (f: Option<&FunctionItem<'a>>)
        ensures
            match f {
                Some(f) => self.items().contains_key(name@) && self.items()[name@].item() == ItemSymbol::Function(*f),
                None => !(self.items().contains_key(name@) && self.items()[name@].item() is Function),
            },
    {
        match named_get(&self.items, name) {
            Some(table) => table.get_function(""),
            None => None,
        }
    }

    /// The structure named `name`.
    fn get_struct(&self, name: &'a str) -> (s: Option<&StructItem<'a>>)
        ensures
            match s {
                Some(s) => self.items().contains_key(name@) && self.items()[name@].item() == ItemSymbol::Struct(*s),
                None => !(self.items().contains_key(name@) && self.items()[name@].item() is Struct),
            },
    {
        match named_get(&self.items, name) {
            Some(table) => table.get_struct(""),
            None => None,
        }
    }

    /// The enumeration named `name`.
    fn get_enumeration(&self, name: &'a str) -> (e: Option<&EnumItem<'a>>)
        ensures
            match e {
                Some(e) => self.items().contains_key(name@) && self.items()[name@].item() == ItemSymbol::Enumeration(*e),
                None => !(self.items().contains_key(name@) && self.items()[name@].item() is Enumeration),
            },
    {
        match named_get(&self.items, name) {
            Some(table) => table.get_enumeration(""),
            None => None,
        }
    }
}

} // verus!
