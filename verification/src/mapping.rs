use vstd::prelude::*;
use async_graphql::indexmap::IndexMap;
use async_graphql::Name;
use crate::ordered_map::inserted;
use crate::row::{Value, ValueModel};

verus! {

/// The insertion-ordered map of the `indexmap` crate, as `async_graphql` hands
/// it on. Nothing inside it is visible to proofs.
#[verifier::external_type_specification]
#[verifier::external_body]
#[verifier::reject_recursive_types(K)]
#[verifier::reject_recursive_types(V)]
#[verifier::reject_recursive_types(S)]
pub struct ExIndexMap<K, V, S>(IndexMap<K, V, S>);

/// A GraphQL name of `async_graphql`: a shared text.
#[verifier::external_type_specification]
#[verifier::external_body]
pub struct ExName(Name);

/// An attribute schema: the declared type tag of each attribute, in order.
pub type TypeMapping = IndexMap<Name, String>;

/// A value record: the decoded value of each attribute, in schema order.
pub type ValueMapping = IndexMap<Name, Value>;

/// The entries that an `IndexMap` from names to type tags holds, in order: the
/// text of each key and of its value.
pub uninterp spec fn type_entries(m: IndexMap<Name, String>) -> Seq<(Seq<char>, Seq<char>)>;

/// The entries that an `IndexMap` from names to values holds, in order: the
/// text of each key, and its value.
pub uninterp spec fn value_entries(m: IndexMap<Name, Value>) -> Seq<(Seq<char>, ValueModel)>;

/// `IndexMap::new`: the map it makes has no entries. Believed, not proved.
#[verifier::external_body]
pub(crate) fn types_new() -> (m: TypeMapping)
    ensures
        type_entries(m) == Seq::<(Seq<char>, Seq<char>)>::empty(),
{
    IndexMap::new()
}

/// `IndexMap::insert`, with the key made by `Name::new` (names are equal when
/// their texts are): a key already in the map keeps its place and takes the new
/// value, a new key goes last. Nothing of this is proved here.
#[verifier::external_body]
pub(crate) fn types_insert(m: &mut TypeMapping, name: &str, ty: String)
    ensures
        type_entries(*final(m)) == inserted(type_entries(*old(m)), name@, ty@),
{
    m.insert(Name::new(name), ty);
}

/// `IndexMap::len`: the number of entries. Believed, not proved.
#[verifier::external_body]
pub(crate) fn types_len(m: &TypeMapping) -> (n: usize)
    ensures
        n == type_entries(*m).len(),
{
    m.len()
}

/// `IndexMap::get_index`, with the key read by `Name::as_str`: the entry at
/// place `i`, which is there for every `i` below the length. A map holds each
/// key once, so the key handed out stands at no other place. Nothing of this
/// is proved here.
#[verifier::external_body]
pub(crate) fn types_at(m: &TypeMapping, i: usize) -> (r: (&str, &String))
    requires
        i < type_entries(*m).len(),
    ensures
        r.0@ == type_entries(*m)[i as int].0,
        r.1@ == type_entries(*m)[i as int].1,
        forall|j: int|
            0 <= j < type_entries(*m).len() && j != i ==> (#[trigger] type_entries(*m)[j]).0
                != r.0@,
{
    let (name, ty) = m.get_index(i).unwrap();
    (name.as_str(), ty)
}

/// `IndexMap::new`: the map it makes has no entries. Believed, not proved.
#[verifier::external_body]
pub(crate) fn values_new() -> (m: ValueMapping)
    ensures
        value_entries(m) == Seq::<(Seq<char>, ValueModel)>::empty(),
{
    IndexMap::new()
}

/// `IndexMap::insert`, with the key made by `Name::new` (names are equal when
/// their texts are): a key already in the map keeps its place and takes the new
/// value, a new key goes last. Nothing of this is proved here.
#[verifier::external_body]
pub(crate) fn values_insert(m: &mut ValueMapping, name: &str, value: Value)
    ensures
        value_entries(*final(m)) == inserted(value_entries(*old(m)), name@, value@),
{
    m.insert(Name::new(name), value);
}

} // verus!
