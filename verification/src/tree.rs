use vstd::prelude::*;
use crate::error::Fault;
use crate::path::{is_valid_path, segments};

verus! {

/// A configuration value as a mathematical tree.
///
/// A table maps keys to values; an array is a sequence of values; everything else is a
/// scalar leaf. Only tables can be walked by key.
pub enum Tree {
    /// A string.
    Str(Seq<char>),
    /// A 64-bit signed integer.
    Integer(i64),
    /// A binary64 number, by its bit pattern.
    Float(u64),
    /// A boolean.
    Boolean(bool),
    /// A date, a time or both, by its RFC 3339 text.
    Datetime(Seq<char>),
    /// An ordered sequence of values.
    Array(Seq<Tree>),
    /// A table: a finite map from keys to values.
    Table(Map<Seq<char>, Tree>),
}

/// What the last step of an edit does to the parent table.
pub enum Edit {
    /// Store this value under the last segment, replacing what was there.
    Put(Tree),
    /// Remove the entry under the last segment, if there is one.
    Remove,
}

impl Tree {
    /// The empty table.
    pub open spec fn empty_table() -> Tree {
        Tree::Table(Map::empty())
    }

    /// Whether this value is a table.
    pub open spec fn is_table(self) -> bool {
        self is Table
    }

    /// The entries of a table; the empty map for any other value.
    pub open spec fn entries(self) -> Map<Seq<char>, Tree> {
        match self {
            Tree::Table(m) => m,
            _ => Map::empty(),
        }
    }

    /// The value stored under `key`, if this is a table that has the key.
    pub open spec fn child(self, key: Seq<char>) -> Option<Tree> {
        match self {
            Tree::Table(m) => if m.dom().contains(key) {
                Some(m[key])
            } else {
                None
            },
            _ => None,
        }
    }

    /// The value reached by following `path` from this value, one table key per segment.
    /// The empty path reaches the value itself.
    pub open spec fn lookup(self, path: Seq<Seq<char>>) -> Option<Tree>
        decreases path.len(),
    {
        if path.len() == 0 {
            Some(self)
        } else {
            match self.child(path[0]) {
                Some(c) => c.lookup(path.skip(1)),
                None => None,
            }
        }
    }

    /// The table with `edit` applied under `key`; for a value that is no table,
    /// `RootNotTable`.
    pub open spec fn edit_entry(self, key: Seq<char>, edit: Edit) -> Result<Tree, Fault> {
        match self {
            Tree::Table(m) => match edit {
                Edit::Put(v) => Ok(Tree::Table(m.insert(key, v))),
                Edit::Remove => Ok(Tree::Table(m.remove(key))),
            },
            _ => Err(Fault::RootNotTable),
        }
    }

    /// The value to descend into under `key`.
    ///
    /// Without `vivify` it is the entry stored there, which must exist and be a table.
    /// With `vivify` a missing entry of a table stands for a new empty table.
    pub open spec fn step(self, key: Seq<char>, vivify: bool) -> Result<Tree, Fault> {
        match self.child(key) {
            Some(c) => if c.is_table() {
                Ok(c)
            } else {
                Err(Fault::TypeMismatch(key))
            },
            None => if !vivify {
                Err(Fault::PathNotFound(key))
            } else if self.is_table() {
                Ok(Tree::empty_table())
            } else {
                Err(Fault::RootNotTable)
            },
        }
    }

    /// The tree after walking `path` from this value and applying `edit` at its last
    /// segment, or the fault that stops the walk.
    ///
    /// Every segment but the last is a step into a table. On a fault nothing is changed.
    pub open spec fn edit_at(self, path: Seq<Seq<char>>, edit: Edit, vivify: bool) -> Result<
        Tree,
        Fault,
    >
        recommends
            path.len() > 0,
        decreases path.len(),
    {
        if path.len() <= 1 {
            self.edit_entry(path[0], edit)
        } else {
            match self.step(path[0], vivify) {
                Err(e) => Err(e),
                Ok(c) => match c.edit_at(path.skip(1), edit, vivify) {
                    Err(e) => Err(e),
                    Ok(c2) => Ok(Tree::Table(self.entries().insert(path[0], c2))),
                },
            }
        }
    }
}

/// What reading `key` from the tree gives: the value that the key's segments lead to.
/// The empty key leads to the tree itself.
pub open spec fn get_outcome(t: Tree, key: Seq<char>) -> Option<Tree> {
    t.lookup(segments(key))
}

/// What an edit under `key` gives: `EmptyKey` for a key that is empty or has an empty
/// segment, else the outcome of the walk along the key's segments.
pub open spec fn edit_outcome(t: Tree, key: Seq<char>, edit: Edit, vivify: bool) -> Result<
    Tree,
    Fault,
> {
    if is_valid_path(segments(key)) {
        t.edit_at(segments(key), edit, vivify)
    } else {
        Err(Fault::EmptyKey)
    }
}

/// Storing `v` under `key`, every table on the way being there already.
pub open spec fn set_outcome(t: Tree, key: Seq<char>, v: Tree) -> Result<Tree, Fault> {
    edit_outcome(t, key, Edit::Put(v), false)
}

/// Storing `v` under `key`, with a new empty table for every missing segment on the way.
pub open spec fn create_outcome(t: Tree, key: Seq<char>, v: Tree) -> Result<Tree, Fault> {
    edit_outcome(t, key, Edit::Put(v), true)
}

/// Removing the entry under `key`, every table on the way being there already.
pub open spec fn delete_outcome(t: Tree, key: Seq<char>) -> Result<Tree, Fault> {
    edit_outcome(t, key, Edit::Remove, false)
}

/// An edit that may create tables never fails inside a table that is still empty.
pub proof fn lemma_edit_in_empty_table(path: Seq<Seq<char>>, edit: Edit)
    requires
        path.len() > 0,
    ensures
        Tree::empty_table().edit_at(path, edit, true) is Ok,
    decreases path.len(),
{
    if path.len() > 1 {
        lemma_edit_in_empty_table(path.skip(1), edit);
    }
}

} // verus!
