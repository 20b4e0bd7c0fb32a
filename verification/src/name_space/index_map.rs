use crate::scope::{TypeSymbol, TypeSymbolView};
use core::hash::BuildHasherDefault;
use twox_hash::XxHash64;
use vstd::prelude::*;

verus! {

#[verifier::external_type_specification]
#[verifier::external_body]
#[verifier::reject_recursive_types(K)]
#[verifier::reject_recursive_types(V)]
#[verifier::reject_recursive_types(S)]
pub struct ExIndexMap<K, V, S>(indexmap::IndexMap<K, V, S>);

#[verifier::external_type_specification]
#[verifier::external_body]
#[verifier::reject_recursive_types(H)]
pub struct ExBuildHasherDefault<H>(BuildHasherDefault<H>);

#[verifier::external_type_specification]
#[verifier::external_body]
pub struct ExXxHash64(XxHash64);

/// Builds the hashers of the maps: xxHash64 with the seed 0.
pub type Hasher = BuildHasherDefault<XxHash64>;

/// The fields of a structure or of an enumeration variant, by name, in the order they were added.
pub type FieldMap<'a> = indexmap::IndexMap<&'a str, TypeSymbol, Hasher>;

/// The variants of an enumeration, by name, in the order they were added.
pub type VariantMap<'a> = indexmap::IndexMap<&'a str, FieldMap<'a>, Hasher>;

/// The fields that a field map holds, in order.
pub uninterp spec fn field_entries(m: FieldMap) -> Seq<(Seq<char>, TypeSymbolView)>;

/// The variants that a variant map holds, in order, each with its fields in order.
pub uninterp spec fn variant_entries(m: VariantMap) -> Seq<(Seq<char>, Seq<(Seq<char>, TypeSymbolView)>)>;

/// Where `key` is among the entries, if it is there.
pub open spec fn key_index<V>(s: Seq<(Seq<char>, V)>, key: Seq<char>) -> Option<int> {
    if exists|i: int| 0 <= i < s.len() && s[i].0 == key {
        Some(choose|i: int| 0 <= i < s.len() && s[i].0 == key)
    } else {
        None
    }
}

/// Calls `BuildHasherDefault::default`; nothing about the hasher is stated.
#[verifier::external_body]
pub fn default_hasher() -> Hasher {
    Hasher::default()
}

/// Calls `IndexMap::with_hasher`, which makes an empty map.
#[verifier::external_body]
pub fn new_field_map<'a>(hasher: Hasher) -> (m: FieldMap<'a>)
    ensures
        field_entries(m) == Seq::<(Seq<char>, TypeSymbolView)>::empty(),
{
    indexmap::IndexMap::with_hasher(hasher)
}

/// Calls `IndexMap::with_hasher`, which makes an empty map.
#[verifier::external_body]
pub fn new_variant_map<'a>(hasher: Hasher) -> (m: VariantMap<'a>)
    ensures
        variant_entries(m) == Seq::<(Seq<char>, Seq<(Seq<char>, TypeSymbolView)>)>::empty(),
{
    indexmap::IndexMap::with_hasher(hasher)
}

/// Calls `IndexMap::insert`: a key already there keeps its place and gets the new
/// value, and the old value comes back; a new key goes last, and nothing comes back.
#[verifier::external_body]
pub fn field_map_insert<'a>(m: &mut FieldMap<'a>, key: &'a str, value: TypeSymbol) -> (old_value: Option<TypeSymbol>)
    ensures
        match key_index(field_entries(*old(m)), key@) {
            Some(i) => {
                &&& old_value matches Some(v) && v@ == field_entries(*old(m))[i].1
                &&& field_entries(*final(m)) == field_entries(*old(m)).update(i, (key@, value@))
            },
            None => {
                &&& old_value is None
                &&& field_entries(*final(m)) == field_entries(*old(m)).push((key@, value@))
            },
        },
{
    m.insert(key, value)
}

/// Calls `IndexMap::insert`: a key already there keeps its place and gets the new
/// value, and the old value comes back; a new key goes last, and nothing comes back.
#[verifier::external_body]
pub fn variant_map_insert<'a>(m: &mut VariantMap<'a>, key: &'a str, value: FieldMap<'a>) -> (old_value: Option<FieldMap<'a>>)
    ensures
        match key_index(variant_entries(*old(m)), key@) {
            Some(i) => {
                &&& old_value matches Some(v) && field_entries(v) == variant_entries(*old(m))[i].1
                &&& variant_entries(*final(m)) == variant_entries(*old(m)).update(i, (key@, field_entries(value)))
            },
            None => {
                &&& old_value is None
                &&& variant_entries(*final(m)) == variant_entries(*old(m)).push((key@, field_entries(value)))
            },
        },
{
    m.insert(key, value)
}

/// Calls `IndexMap::get_mut`: the fields of the variant `key`, if it is there; what is
/// done to them is done to the variant in the map.
#[verifier::external_body]
pub fn variant_map_get_mut<'m, 'a>(m: &'m mut VariantMap<'a>, key: &'a str) -> (fields: Option<&'m mut FieldMap<'a>>)
    ensures
        match key_index(variant_entries(*old(m)), key@) {
            Some(i) => fields matches Some(f) && field_entries(*f) == variant_entries(*old(m))[i].1
                && variant_entries(*final(m)) == variant_entries(*old(m)).update(i, (key@, field_entries(*final(f)))),
            None => fields is None && variant_entries(*final(m)) == variant_entries(*old(m)),
        },
{
    m.get_mut(key)
}

/// Calls `IndexMap::values`: the values in the order of the map.
#[verifier::external_body]
pub fn field_map_values<'m, 'a>(m: &'m FieldMap<'a>) -> (values: Vec<&'m TypeSymbol>)
    ensures
        values@.len() == field_entries(*m).len(),
        forall|i: int| 0 <= i < values@.len() ==> (#[trigger] values@[i])@ == field_entries(*m)[i].1,
{
    m.values().collect()
}

/// Calls `IndexMap::values`: the values in the order of the map.
#[verifier::external_body]
pub fn variant_map_values<'m, 'a>(m: &'m VariantMap<'a>) -> (values: Vec<&'m FieldMap<'a>>)
    ensures
        values@.len() == variant_entries(*m).len(),
        forall|i: int| 0 <= i < values@.len() ==> field_entries(*#[trigger] values@[i]) == variant_entries(*m)[i].1,
{
    m.values().collect()
}

} // verus!
