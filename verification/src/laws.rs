//! What holds of reading and editing a tree, whatever the tree, the key and the value.

use vstd::prelude::*;
use crate::error::Fault;
use crate::path::{is_valid_path, segments};
use crate::tree::{
    create_outcome, delete_outcome, edit_outcome, get_outcome, lemma_edit_in_empty_table,
    set_outcome, Edit, Tree,
};

verus! {

/// A value that was stored along a path is found along that path, unchanged.
pub proof fn lemma_put_then_lookup(t: Tree, path: Seq<Seq<char>>, v: Tree, vivify: bool)
    requires
        path.len() > 0,
        t.edit_at(path, Edit::Put(v), vivify) is Ok,
    ensures
        t.edit_at(path, Edit::Put(v), vivify)->Ok_0.lookup(path) == Some(v),
    decreases path.len(),
{
    let after = t.edit_at(path, Edit::Put(v), vivify)->Ok_0;
    if path.len() == 1 {
        assert(after.child(path[0]) == Some(v));
        assert(v.lookup(path.skip(1)) == Some(v));
    } else {
        let c = t.step(path[0], vivify)->Ok_0;
        lemma_put_then_lookup(c, path.skip(1), v, vivify);
        assert(after.child(path[0]) == Some(c.edit_at(path.skip(1), Edit::Put(v), vivify)->Ok_0));
    }
}

/// After a removal along a path nothing is found along that path.
pub proof fn lemma_remove_then_lookup(t: Tree, path: Seq<Seq<char>>)
    requires
        path.len() > 0,
        t.edit_at(path, Edit::Remove, false) is Ok,
    ensures
        t.edit_at(path, Edit::Remove, false)->Ok_0.lookup(path) is None,
    decreases path.len(),
{
    let after = t.edit_at(path, Edit::Remove, false)->Ok_0;
    if path.len() == 1 {
        assert(after.child(path[0]) is None);
    } else {
        let c = t.step(path[0], false)->Ok_0;
        lemma_remove_then_lookup(c, path.skip(1));
        assert(after.child(path[0]) == Some(c.edit_at(path.skip(1), Edit::Remove, false)->Ok_0));
    }
}

/// An edit that succeeds leaves a table at the root and at every segment but the last.
pub proof fn lemma_edit_leaves_tables(
    t: Tree,
    path: Seq<Seq<char>>,
    edit: Edit,
    vivify: bool,
    k: int,
)
    requires
        0 <= k < path.len(),
        t.edit_at(path, edit, vivify) is Ok,
    ensures
        t.edit_at(path, edit, vivify)->Ok_0.lookup(path.take(k)) matches Some(p) && p.is_table(),
    decreases path.len(),
{
    let after = t.edit_at(path, edit, vivify)->Ok_0;
    if k == 0 {
        assert(path.take(0).len() == 0);
    } else {
        let c = t.step(path[0], vivify)->Ok_0;
        let c2 = c.edit_at(path.skip(1), edit, vivify)->Ok_0;
        lemma_edit_leaves_tables(c, path.skip(1), edit, vivify, k - 1);
        assert(after.child(path[0]) == Some(c2));
        assert(path.take(k)[0] == path[0]);
        assert(path.take(k).skip(1) =~= path.skip(1).take(k - 1));
    }
}

/// An edit without creation succeeds exactly where the path without its last segment
/// leads to a table.
pub proof fn lemma_edit_succeeds_iff_parent_is_table(t: Tree, path: Seq<Seq<char>>, edit: Edit)
    requires
        path.len() > 0,
    ensures
        t.edit_at(path, edit, false) is Ok <==> (t.lookup(path.drop_last()) matches Some(p)
            && p.is_table()),
    decreases path.len(),
{
    if path.len() == 1 {
        assert(path.drop_last().len() == 0);
    } else {
        assert(path.drop_last()[0] == path[0]);
        assert(path.drop_last().skip(1) =~= path.skip(1).drop_last());
        match t.child(path[0]) {
            Some(c) => {
                lemma_edit_succeeds_iff_parent_is_table(c, path.skip(1), edit);
                if !c.is_table() {
                    lemma_lookup_through_non_table(c, path.skip(1).drop_last());
                }
            },
            None => {},
        }
    }
}

/// From a value that is no table no path leads to a table.
pub proof fn lemma_lookup_through_non_table(t: Tree, path: Seq<Seq<char>>)
    requires
        !t.is_table(),
    ensures
        !(t.lookup(path) matches Some(p) && p.is_table()),
{
    if path.len() > 0 {
        assert(t.child(path[0]) is None);
    }
}

/// The walk stops with the fault of the first step that fails.
///
/// Where the first `k` segments lead to `p`, which is the root or a table, and the step
/// from `p` into segment `k` fails, the edit fails with that step's fault.
pub proof fn lemma_edit_stops_at(
    t: Tree,
    path: Seq<Seq<char>>,
    edit: Edit,
    vivify: bool,
    k: int,
)
    requires
        0 <= k < path.len() - 1,
        t.lookup(path.take(k)) matches Some(p) && (k == 0 || p.is_table()) && p.step(
            path[k],
            vivify,
        ) is Err,
    ensures
        t.edit_at(path, edit, vivify) == Err::<Tree, Fault>(
            t.lookup(path.take(k))->Some_0.step(path[k], vivify)->Err_0,
        ),
    decreases k,
{
    if k == 0 {
        assert(path.take(0).len() == 0);
    } else {
        assert(path.take(k)[0] == path[0]);
        assert(path.take(k).skip(1) =~= path.skip(1).take(k - 1));
        let c = t.child(path[0])->Some_0;
        assert(c.lookup(path.skip(1).take(k - 1)) == t.lookup(path.take(k)));
        if !c.is_table() {
            if k - 1 > 0 {
                assert(c.child(path.skip(1).take(k - 1)[0]) is None);
            } else {
                assert(path.skip(1).take(0).len() == 0);
            }
        }
        assert(path.skip(1)[k - 1] == path[k]);
        lemma_edit_stops_at(c, path.skip(1), edit, vivify, k - 1);
    }
}

/// Removing twice is removing once: after a removal that succeeded, the same removal
/// succeeds again and changes nothing.
pub proof fn lemma_remove_twice(t: Tree, path: Seq<Seq<char>>)
    requires
        path.len() > 0,
        t.edit_at(path, Edit::Remove, false) is Ok,
    ensures
        t.edit_at(path, Edit::Remove, false)->Ok_0.edit_at(path, Edit::Remove, false)
            == t.edit_at(path, Edit::Remove, false),
    decreases path.len(),
{
    let after = t.edit_at(path, Edit::Remove, false)->Ok_0;
    if path.len() == 1 {
        assert(t.entries().remove(path[0]).remove(path[0]) =~= t.entries().remove(path[0]));
    } else {
        let c = t.step(path[0], false)->Ok_0;
        let c2 = c.edit_at(path.skip(1), Edit::Remove, false)->Ok_0;
        lemma_remove_twice(c, path.skip(1));
        lemma_edit_leaves_tables(c, path.skip(1), Edit::Remove, false, 0);
        assert(path.skip(1).take(0).len() == 0);
        assert(after.child(path[0]) == Some(c2));
        assert(t.entries().insert(path[0], c2).insert(path[0], c2) =~= t.entries().insert(
            path[0],
            c2,
        ));
    }
}

/// Removing what is not there changes nothing.
pub proof fn lemma_remove_absent(t: Tree, path: Seq<Seq<char>>)
    requires
        path.len() > 0,
        t.edit_at(path, Edit::Remove, false) is Ok,
        t.lookup(path) is None,
    ensures
        t.edit_at(path, Edit::Remove, false) == Ok::<Tree, Fault>(t),
    decreases path.len(),
{
    if path.len() == 1 {
        assert(t.entries().remove(path[0]) =~= t.entries());
    } else {
        let c = t.step(path[0], false)->Ok_0;
        lemma_remove_absent(c, path.skip(1));
        assert(t.entries().insert(path[0], c) =~= t.entries());
    }
}

/// `set` then `get` with the same key gives the value that was set, unchanged.
pub proof fn law_set_then_get(t: Tree, key: Seq<char>, v: Tree)
    requires
        set_outcome(t, key, v) is Ok,
    ensures
        get_outcome(set_outcome(t, key, v)->Ok_0, key) == Some(v),
{
    lemma_put_then_lookup(t, segments(key), v, false);
}

/// `create` then `get` with the same key gives the value that was stored, unchanged,
/// and the root and every segment of the key but the last then hold a table.
pub proof fn law_create_then_get(t: Tree, key: Seq<char>, v: Tree)
    requires
        create_outcome(t, key, v) is Ok,
    ensures
        get_outcome(create_outcome(t, key, v)->Ok_0, key) == Some(v),
        forall|k: int|
            0 <= k < segments(key).len() ==> (#[trigger] create_outcome(t, key, v)->Ok_0.lookup(
                segments(key).take(k),
            ) matches Some(p) && p.is_table()),
{
    lemma_put_then_lookup(t, segments(key), v, true);
    assert forall|k: int| 0 <= k < segments(key).len() implies (#[trigger] create_outcome(
        t,
        key,
        v,
    )->Ok_0.lookup(segments(key).take(k)) matches Some(p) && p.is_table()) by {
        lemma_edit_leaves_tables(t, segments(key), Edit::Put(v), true, k);
    }
}

/// In an empty table `create` succeeds for every key that has a segment and no empty one.
pub proof fn law_create_in_empty_table(key: Seq<char>, v: Tree)
    requires
        is_valid_path(segments(key)),
    ensures
        create_outcome(Tree::empty_table(), key, v) is Ok,
{
    lemma_edit_in_empty_table(segments(key), Edit::Put(v));
}

/// Where the root is a table without the key's first segment, and the key has more
/// segments than one, `set` fails with `PathNotFound` for that segment and `create`
/// succeeds.
pub proof fn law_missing_parent(t: Tree, key: Seq<char>, v: Tree)
    requires
        is_valid_path(segments(key)),
        segments(key).len() >= 2,
        t.is_table(),
        t.child(segments(key)[0]) is None,
    ensures
        set_outcome(t, key, v) == Err::<Tree, Fault>(Fault::PathNotFound(segments(key)[0])),
        create_outcome(t, key, v) is Ok,
{
    lemma_edit_in_empty_table(segments(key).skip(1), Edit::Put(v));
}

/// `delete` is idempotent: after a `delete` that succeeded, nothing is found under the
/// key, and a second `delete` with the same key succeeds and changes nothing.
pub proof fn law_delete_twice(t: Tree, key: Seq<char>)
    requires
        delete_outcome(t, key) is Ok,
    ensures
        get_outcome(delete_outcome(t, key)->Ok_0, key) is None,
        delete_outcome(delete_outcome(t, key)->Ok_0, key) == delete_outcome(t, key),
{
    lemma_remove_then_lookup(t, segments(key));
    lemma_remove_twice(t, segments(key));
}

/// `delete` of an entry that is not there, in a table that is, succeeds and changes
/// nothing.
pub proof fn law_delete_absent(t: Tree, key: Seq<char>)
    requires
        is_valid_path(segments(key)),
        t.lookup(segments(key).drop_last()) matches Some(p) && p.is_table(),
        get_outcome(t, key) is None,
    ensures
        delete_outcome(t, key) == Ok::<Tree, Fault>(t),
{
    lemma_edit_succeeds_iff_parent_is_table(t, segments(key), Edit::Remove);
    lemma_remove_absent(t, segments(key));
}

/// `set` and `delete` succeed exactly for a key that has a segment and no empty one,
/// and whose segments but the last lead to a table.
pub proof fn law_edit_succeeds_iff(t: Tree, key: Seq<char>, edit: Edit)
    ensures
        edit_outcome(t, key, edit, false) is Ok <==> is_valid_path(segments(key)) && (t.lookup(
            segments(key).drop_last(),
        ) matches Some(p) && p.is_table()),
{
    if is_valid_path(segments(key)) {
        lemma_edit_succeeds_iff_parent_is_table(t, segments(key), edit);
    }
}

/// A value that is no table is never walked through and never overwritten on the way:
/// where the first `k + 1` segments of the key lead to such a value, and more segments
/// follow, every edit fails with `TypeMismatch` for segment `k`.
pub proof fn law_non_table_on_the_way(t: Tree, key: Seq<char>, edit: Edit, vivify: bool, k: int)
    requires
        is_valid_path(segments(key)),
        0 <= k < segments(key).len() - 1,
        t.lookup(segments(key).take(k + 1)) matches Some(x) && !x.is_table(),
    ensures
        edit_outcome(t, key, edit, vivify) == Err::<Tree, Fault>(
            Fault::TypeMismatch(segments(key)[k]),
        ),
{
    let path = segments(key);
    lemma_lookup_split(t, path.take(k + 1), k);
    assert(path.take(k + 1).take(k) =~= path.take(k));
    assert(path.take(k + 1).skip(k) =~= seq![path[k]]);
    let p = t.lookup(path.take(k))->Some_0;
    let last = seq![path[k]];
    assert(last[0] == path[k] && last.skip(1).len() == 0);
    match p.child(path[k]) {
        Some(c) => {
            assert(c.lookup(last.skip(1)) == Some(c));
        },
        None => {},
    }
    assert(p.lookup(last) == p.child(path[k]));
    lemma_edit_stops_at(t, path, edit, vivify, k);
}

/// Following a path is following its first `k` segments and then the rest.
pub proof fn lemma_lookup_split(t: Tree, path: Seq<Seq<char>>, k: int)
    requires
        0 <= k <= path.len(),
    ensures
        t.lookup(path) == match t.lookup(path.take(k)) {
            Some(p) => p.lookup(path.skip(k)),
            None => None,
        },
    decreases k,
{
    if k == 0 {
        assert(path.take(0).len() == 0);
        assert(path.skip(0) =~= path);
    } else {
        assert(path.take(k)[0] == path[0]);
        assert(path.take(k).skip(1) =~= path.skip(1).take(k - 1));
        assert(path.skip(k) =~= path.skip(1).skip(k - 1));
        match t.child(path[0]) {
            Some(c) => {
                lemma_lookup_split(c, path.skip(1), k - 1);
            },
            None => {},
        }
    }
}

/// An edit touches nothing beside its path: a path that leaves the edited one at some
/// segment leads to the same value before and after.
pub proof fn lemma_edit_keeps_other_paths(
    t: Tree,
    path: Seq<Seq<char>>,
    edit: Edit,
    vivify: bool,
    other: Seq<Seq<char>>,
    k: int,
)
    requires
        t.edit_at(path, edit, vivify) is Ok,
        0 <= k < path.len(),
        k < other.len(),
        other.take(k) == path.take(k),
        other[k] != path[k],
    ensures
        t.edit_at(path, edit, vivify)->Ok_0.lookup(other) == t.lookup(other),
    decreases k,
{
    let after = t.edit_at(path, edit, vivify)->Ok_0;
    if k == 0 {
        assert(after.child(other[0]) == t.child(other[0]));
    } else {
        assert(other[0] == other.take(k)[0]);
        assert(path[0] == path.take(k)[0]);
        let c = t.step(path[0], vivify)->Ok_0;
        let c2 = c.edit_at(path.skip(1), edit, vivify)->Ok_0;
        assert(after.child(other[0]) == Some(c2));
        assert(other.skip(1).take(k - 1) =~= other.take(k).skip(1));
        assert(path.skip(1).take(k - 1) =~= path.take(k).skip(1));
        lemma_edit_keeps_other_paths(c, path.skip(1), edit, vivify, other.skip(1), k - 1);
        if t.child(path[0]) is None {
            assert(c.child(other.skip(1)[0]) is None);
        }
    }
}

/// `set`, `create` and `delete` touch nothing beside their key: a key whose segments
/// leave those of the edited key at some segment gives the same value before and after.
pub proof fn law_edit_keeps_other_keys(
    t: Tree,
    key: Seq<char>,
    edit: Edit,
    vivify: bool,
    other: Seq<char>,
    k: int,
)
    requires
        edit_outcome(t, key, edit, vivify) is Ok,
        0 <= k < segments(key).len(),
        k < segments(other).len(),
        segments(other).take(k) == segments(key).take(k),
        segments(other)[k] != segments(key)[k],
    ensures
        get_outcome(edit_outcome(t, key, edit, vivify)->Ok_0, other) == get_outcome(t, other),
{
    lemma_edit_keeps_other_paths(t, segments(key), edit, vivify, segments(other), k);
}

} // verus!
