//! The document codec and its value type, as this library relies on them.
//!
//! Nothing in this module is proved: each item states what the `toml` crate does, and
//! the rest of the library is verified against these statements.

use vstd::prelude::*;
use crate::tree::Tree;

verus! {

/// `toml::Value`: one value of a document.
#[verifier::external_type_specification]
#[verifier::external_body]
pub struct ExValue(toml::Value);

/// `toml::map::Map`: the map that a table value holds.
#[verifier::external_type_specification]
#[verifier::external_body]
#[verifier::reject_recursive_types(K)]
#[verifier::reject_recursive_types(V)]
pub struct ExMap<K, V>(toml::map::Map<K, V>);

/// `toml::de::Error`: why a text is no document.
#[verifier::external_type_specification]
#[verifier::external_body]
pub struct ExDeError(toml::de::Error);

/// `toml::ser::Error`: why a value cannot be written as a document.
#[verifier::external_type_specification]
#[verifier::external_body]
pub struct ExSerError(toml::ser::Error);

/// `std::path::PathBuf`: the name of a file.
#[verifier::external_type_specification]
#[verifier::external_body]
pub struct ExPathBuf(std::path::PathBuf);

/// What a value holds, as a tree.
pub uninterp spec fn tree_of(v: toml::Value) -> Tree;

/// What a table holds: its keys, each with the tree of its value.
pub uninterp spec fn entries_of(t: toml::Table) -> Map<Seq<char>, Tree>;

/// The tree that `toml::from_str` reads from a text, or `None` where it rejects the text.
pub uninterp spec fn parsed(text: Seq<char>) -> Option<Tree>;

/// The text that `toml::to_string` writes for a tree, or `None` where it cannot write it.
pub uninterp spec fn rendered(tree: Tree) -> Option<Seq<char>>;

/// `toml::from_str`, reading a whole document as a value. What it returns depends on
/// the text alone.
#[verifier::external_body]
pub(crate) fn parse_document(text: &str) -> (r: Result<toml::Value, toml::de::Error>)
    ensures
        match r {
            Ok(v) => parsed(text@) == Some(tree_of(v)),
            Err(_) => parsed(text@) is None,
        },
{
    toml::from_str::<toml::Value>(text)
}

/// `toml::to_string` on a value. What it returns depends on the value's tree alone.
#[verifier::external_body]
pub(crate) fn render_document(v: &toml::Value) -> (r: Result<String, toml::ser::Error>)
    ensures
        match r {
            Ok(s) => rendered(tree_of(*v)) == Some(s@),
            Err(_) => rendered(tree_of(*v)) is None,
        },
{
    toml::to_string(v)
}

/// `Value::get` with a string index: the entry under `key` if the value is a table
/// that has the key, nothing otherwise.
#[verifier::external_body]
pub(crate) fn value_get<'a>(v: &'a toml::Value, key: &str) -> (r: Option<&'a toml::Value>)
    ensures
        match r {
            Some(c) => tree_of(*v).child(key@) == Some(tree_of(*c)),
            None => tree_of(*v).child(key@) is None,
        },
{
    v.get(key)
}

/// `Value::get_mut` with a string index: as `Value::get`, and what is written through
/// the reference becomes the table's entry under `key`; the value is otherwise unchanged.
#[verifier::external_body]
pub(crate) fn value_get_mut<'a>(v: &'a mut toml::Value, key: &str) -> (r: Option<
    &'a mut toml::Value,
>)
    ensures
        match r {
            Some(c) => tree_of(*old(v)).child(key@) == Some(tree_of(*c)) && tree_of(*final(v))
                == Tree::Table(tree_of(*old(v)).entries().insert(key@, tree_of(*final(c)))),
            None => tree_of(*old(v)).child(key@) is None && tree_of(*final(v)) == tree_of(
                *old(v),
            ),
        },
{
    v.get_mut(key)
}

/// `Value::is_table`.
#[verifier::external_body]
pub(crate) fn value_is_table(v: &toml::Value) -> (r: bool)
    ensures
        r == tree_of(*v).is_table(),
{
    v.is_table()
}

/// `Value::as_str`: the string of a string value, nothing for any other value.
#[verifier::external_body]
pub(crate) fn value_as_str<'a>(v: &'a toml::Value) -> (r: Option<&'a str>)
    ensures
        match r {
            Some(s) => tree_of(*v) == Tree::Str(s@),
            None => !(tree_of(*v) is Str),
        },
{
    v.as_str()
}

/// `Value::as_table_mut`: the map of a table value, nothing for any other value. What
/// is done to the map through the reference is done to the value.
#[verifier::external_body]
pub(crate) fn value_as_table_mut<'a>(v: &'a mut toml::Value) -> (r: Option<&'a mut toml::Table>)
    ensures
        match r {
            Some(t) => tree_of(*old(v)) == Tree::Table(entries_of(*t)) && tree_of(*final(v))
                == Tree::Table(entries_of(*final(t))),
            None => !tree_of(*old(v)).is_table() && tree_of(*final(v)) == tree_of(*old(v)),
        },
{
    v.as_table_mut()
}

/// `Map::new`: a map without entries.
#[verifier::external_body]
pub(crate) fn table_new() -> (r: toml::Table)
    ensures
        entries_of(r) == Tree::empty_table().entries(),
{
    toml::map::Map::new()
}

/// `Value::Table`: the table value that holds a map.
#[verifier::external_body]
pub(crate) fn value_from_table(t: toml::Table) -> (r: toml::Value)
    ensures
        tree_of(r) == Tree::Table(entries_of(t)),
{
    toml::Value::Table(t)
}

/// `Map::insert`: stores the value under the key, in place of an earlier entry with
/// that key, which it returns.
#[verifier::external_body]
pub(crate) fn table_insert(t: &mut toml::Table, key: String, value: toml::Value) -> (r: Option<
    toml::Value,
>)
    ensures
        entries_of(*final(t)) == entries_of(*old(t)).insert(key@, tree_of(value)),
        match r {
            Some(prev) => entries_of(*old(t)).dom().contains(key@) && tree_of(prev) == entries_of(
                *old(t),
            )[key@],
            None => !entries_of(*old(t)).dom().contains(key@),
        },
{
    t.insert(key, value)
}

/// `Map::remove`: removes the entry under the key, if there is one, and returns its value.
#[verifier::external_body]
pub(crate) fn table_remove(t: &mut toml::Table, key: &str) -> (r: Option<toml::Value>)
    ensures
        entries_of(*final(t)) == entries_of(*old(t)).remove(key@),
        match r {
            Some(prev) => entries_of(*old(t)).dom().contains(key@) && tree_of(prev) == entries_of(
                *old(t),
            )[key@],
            None => !entries_of(*old(t)).dom().contains(key@),
        },
{
    t.remove(key)
}

/// `Deserialize::deserialize` of `T` from a copy of the value: a `T` where the value fits
/// it, the codec's error where it does not. What fits is for `T` to say, so nothing is
/// stated of the result.
#[verifier::external_body]
pub(crate) fn deserialize_value<T: serde::de::DeserializeOwned>(v: &toml::Value) -> (r: Result<
    T,
    toml::de::Error,
>) {
    T::deserialize(v.clone())
}

} // verus!
