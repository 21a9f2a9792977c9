use std::path::PathBuf;
use vstd::prelude::*;
use crate::codec::{
    deserialize_value, parse_document, parsed, render_document, rendered, table_insert,
    table_new, table_remove, tree_of, value_as_str, value_as_table_mut, value_from_table,
    value_get, value_get_mut, value_is_table,
};
use crate::error::ConfigError;
use crate::path::{check_path, path_of, split_key};
use crate::tree::{
    create_outcome, delete_outcome, get_outcome, lemma_edit_in_empty_table, set_outcome, Edit,
    Tree,
};

verus! {

/// What the last step of an edit does, with the value to store where there is one.
enum Change {
    Put(toml::Value),
    Remove,
}

impl Change {
    spec fn edit(self) -> Edit {
        match self {
            Change::Put(v) => Edit::Put(tree_of(v)),
            Change::Remove => Edit::Remove,
        }
    }
}

/// Walks from `node` along `parts[i..]` and applies `change` at the last segment.
fn edit_node(
    node: &mut toml::Value,
    parts: &Vec<&str>,
    i: usize,
    change: Change,
    vivify: bool,
) -> (r: Result<(), ConfigError>)
    requires
        i < parts.len(),
    ensures
        match tree_of(*old(node)).edit_at(path_of(parts@).skip(i as int), change.edit(), vivify) {
            Ok(t) => r is Ok && tree_of(*final(node)) == t,
            Err(e) => r matches Err(x) && x@ == e && tree_of(*final(node)) == tree_of(*old(node)),
        },
    decreases parts.len() - i,
{
    let key: &str = parts[i];
    let ghost before = tree_of(*node);
    let ghost path = path_of(parts@).skip(i as int);
    proof {
        assert(path[0] == key@);
        assert(path.skip(1) =~= path_of(parts@).skip(i + 1));
    }
    if i + 1 == parts.len() {
        match value_as_table_mut(node) {
            None => Err(ConfigError::RootNotTable),
            Some(table) => {
                match change {
                    Change::Put(v) => {
                        table_insert(table, key.to_owned(), v);
                    },
                    Change::Remove => {
                        table_remove(table, key);
                    },
                }
                Ok(())
            },
        }
    } else {
        if vivify && value_get(node, key).is_none() {
            match value_as_table_mut(node) {
                None => {
                    return Err(ConfigError::RootNotTable);
                },
                Some(table) => {
                    table_insert(table, key.to_owned(), value_from_table(table_new()));
                },
            }
            proof {
                lemma_edit_in_empty_table(path.skip(1), change.edit());
            }
        }
        let ghost filled = tree_of(*node);
        match value_get_mut(node, key) {
            None => Err(ConfigError::PathNotFound(key.to_owned())),
            Some(child) => {
                if !value_is_table(child) {
                    proof {
                        assert(filled.entries().insert(key@, tree_of(*child)) =~= filled.entries());
                    }
                    Err(ConfigError::TypeMismatch(key.to_owned()))
                } else {
                    let ghost below = tree_of(*child);
                    let r = edit_node(child, parts, i + 1, change, vivify);
                    proof {
                        if r is Err {
                            assert(filled.entries().insert(key@, below) =~= filled.entries());
                        } else {
                            assert(filled.entries().insert(key@, tree_of(*child))
                                =~= before.entries().insert(key@, tree_of(*child)));
                        }
                    }
                    r
                }
            },
        }
    }
}

/// Whether `read` is what reading the value `v` into a `T` gave.
pub closed spec fn reads_as<T: serde::de::DeserializeOwned>(
    v: toml::Value,
    read: Result<T, toml::de::Error>,
) -> bool {
    call_ensures(deserialize_value::<T>, (&v,), read)
}

/// What a typed read gives for the reader's result: the value read, or nothing where
/// the reader reported an error.
pub open spec fn typed_outcome_of<T>(read: Result<T, toml::de::Error>) -> Option<T> {
    match read {
        Ok(x) => Some(x),
        Err(_) => None,
    }
}

/// Turns the reader's result into the result of a typed read: an error of the reader
/// becomes nothing, and is not told apart from a value that was not found.
pub fn typed_outcome<T>(read: Result<T, toml::de::Error>) -> (r: Option<T>)
    ensures
        r == typed_outcome_of(read),
{
    match read {
        Ok(x) => Some(x),
        Err(_) => None,
    }
}

/// A configuration document held in memory, with the file it belongs to.
///
/// The store reads values by dotted key and edits the tree in place. Nothing is
/// written back unless [`TomlConfig::save`] is asked for the text.
pub struct TomlConfig {
    data: toml::Value,
    path: PathBuf,
}

impl View for TomlConfig {
    type V = Tree;

    closed spec fn view(&self) -> Tree {
        tree_of(self.data)
    }
}

impl TomlConfig {
    /// The file that the store belongs to.
    pub closed spec fn backing_path(&self) -> PathBuf {
        self.path
    }

    /// Makes the store of the document `text`, which belongs to the file `path`.
    ///
    /// Fails with `Parse` exactly where the codec rejects the text.
    pub fn load(path: PathBuf, text: &str) -> (r: Result<TomlConfig, ConfigError>)
        ensures
            match parsed(text@) {
                Some(t) => r matches Ok(c) && c@ == t && c.backing_path() == path,
                None => r matches Err(ConfigError::Parse(_)),
            },
    {
        match parse_document(text) {
            Ok(data) => Ok(TomlConfig { data, path }),
            Err(e) => Err(ConfigError::Parse(e.to_string())),
        }
    }

    /// The value under the dotted `key`, if every segment of the key leads on through a
    /// table. The empty key gives the root.
    pub fn get(&self, key: &str) -> (r: Option<&toml::Value>)
        ensures
            match r {
                Some(v) => get_outcome(self@, key@) == Some(tree_of(*v)),
                None => get_outcome(self@, key@) is None,
            },
    {
        let parts = split_key(key);
        let mut current: &toml::Value = &self.data;
        let mut i: usize = 0;
        proof {
            assert(path_of(parts@).skip(0) =~= path_of(parts@));
        }
        while i < parts.len()
            invariant
                i <= parts.len(),
                get_outcome(self@, key@) == tree_of(*current).lookup(path_of(parts@).skip(i as int)),
            decreases parts.len() - i,
        {
            proof {
                assert(path_of(parts@).skip(i as int)[0] == parts[i as int]@);
                assert(path_of(parts@).skip(i as int).skip(1) =~= path_of(parts@).skip(i + 1));
            }
            match value_get(current, parts[i]) {
                Some(c) => {
                    current = c;
                },
                None => {
                    return None;
                },
            }
            i = i + 1;
        }
        Some(current)
    }

    /// Stores `value` under the dotted `key`, in place of what was there.
    ///
    /// Every segment but the last must name a table that is there already. On an error
    /// the tree is as it was.
    pub fn set(&mut self, key: &str, value: toml::Value) -> (r: Result<&mut Self, ConfigError>)
        ensures
            match set_outcome(old(self)@, key@, tree_of(value)) {
                Ok(t) => r matches Ok(s) && s@ == t && s.backing_path() == old(self).backing_path()
                    && *final(self) == *final(s),
                Err(e) => r matches Err(x) && x@ == e && final(self)@ == old(self)@
                    && final(self).backing_path() == old(self).backing_path(),
            },
    {
        let parts = split_key(key);
        if !check_path(&parts) {
            return Err(ConfigError::EmptyKey);
        }
        proof {
            assert(path_of(parts@).skip(0) =~= path_of(parts@));
        }
        match edit_node(&mut self.data, &parts, 0, Change::Put(value), false) {
            Ok(()) => Ok(self),
            Err(e) => Err(e),
        }
    }

    /// Stores `value` under the dotted `key`, making a new empty table for every segment
    /// on the way that is missing.
    ///
    /// An entry on the way that is there and is no table stops the walk. On an error the
    /// tree is as it was.
    pub fn create(&mut self, key: &str, value: toml::Value) -> (r: Result<&mut Self, ConfigError>)
        ensures
            match create_outcome(old(self)@, key@, tree_of(value)) {
                Ok(t) => r matches Ok(s) && s@ == t && s.backing_path() == old(self).backing_path()
                    && *final(self) == *final(s),
                Err(e) => r matches Err(x) && x@ == e && final(self)@ == old(self)@
                    && final(self).backing_path() == old(self).backing_path(),
            },
    {
        let parts = split_key(key);
        if !check_path(&parts) {
            return Err(ConfigError::EmptyKey);
        }
        proof {
            assert(path_of(parts@).skip(0) =~= path_of(parts@));
        }
        match edit_node(&mut self.data, &parts, 0, Change::Put(value), true) {
            Ok(()) => Ok(self),
            Err(e) => Err(e),
        }
    }

    /// Removes the entry under the dotted `key`. Where the last table has no such entry,
    /// nothing is removed and the call succeeds.
    ///
    /// Every segment but the last must name a table that is there already. On an error
    /// the tree is as it was.
    pub fn delete(&mut self, key: &str) -> (r: Result<&mut Self, ConfigError>)
        ensures
            match delete_outcome(old(self)@, key@) {
                Ok(t) => r matches Ok(s) && s@ == t && s.backing_path() == old(self).backing_path()
                    && *final(self) == *final(s),
                Err(e) => r matches Err(x) && x@ == e && final(self)@ == old(self)@
                    && final(self).backing_path() == old(self).backing_path(),
            },
    {
        let parts = split_key(key);
        if !check_path(&parts) {
            return Err(ConfigError::EmptyKey);
        }
        proof {
            assert(path_of(parts@).skip(0) =~= path_of(parts@));
        }
        match edit_node(&mut self.data, &parts, 0, Change::Remove, false) {
            Ok(()) => Ok(self),
            Err(e) => Err(e),
        }
    }

    /// The string under the dotted `key`, if there is a value there and it is a string.
    pub fn get_str(&self, key: &str) -> (r: Option<&str>)
        ensures
            match r {
                Some(s) => get_outcome(self@, key@) == Some(Tree::Str(s@)),
                None => !(get_outcome(self@, key@) matches Some(Tree::Str(_))),
            },
    {
        match self.get(key) {
            Some(v) => value_as_str(v),
            None => None,
        }
    }

    /// The value under the dotted `key`, read into a `T`.
    ///
    /// Gives nothing where no value is found. Where one is found, it is handed to the
    /// reader of `T`, and the result is what the reader made of it: the `T`, or nothing
    /// where the value does not fit. The two ways to get nothing are not told apart.
    pub fn get_of_type<T: serde::de::DeserializeOwned>(&self, key: &str) -> (r: Option<T>)
        ensures
            match get_outcome(self@, key@) {
                None => r is None,
                Some(t) => exists|v: toml::Value, read: Result<T, toml::de::Error>|
                    tree_of(v) == t && #[trigger] reads_as(v, read) && r == typed_outcome_of(
                        read,
                    ),
            },
    {
        match self.get(key) {
            Some(v) => {
                let reader = deserialize_value::<T>;
                let read = reader(v);
                assert(reads_as(*v, read));
                typed_outcome(read)
            },
            None => None,
        }
    }

    /// The text of the document as it is now, to be written to the file.
    ///
    /// Fails with `Serialize` exactly where the codec cannot write the tree.
    pub fn save(&self) -> (r: Result<String, ConfigError>)
        ensures
            match rendered(self@) {
                Some(text) => r matches Ok(s) && s@ == text,
                None => r matches Err(ConfigError::Serialize(_)),
            },
    {
        match render_document(&self.data) {
            Ok(text) => Ok(text),
            Err(e) => Err(ConfigError::Serialize(e.to_string())),
        }
    }

    /// The file that the store belongs to.
    pub fn get_path(&self) -> (r: &PathBuf)
        ensures
            *r == self.backing_path(),
    {
        &self.path
    }

    /// The whole tree, for reading.
    pub fn get_data(&self) -> (r: &toml::Value)
        ensures
            tree_of(*r) == self@,
    {
        &self.data
    }
}

} // verus!
