use vstd::prelude::*;

verus! {

/// The pieces of `s` between its dots, in order. A string without a dot is one piece;
/// `n` dots give `n + 1` pieces, some of which may be empty.
pub open spec fn split_dots(s: Seq<char>) -> Seq<Seq<char>>
    decreases s.len(),
{
    if s.len() == 0 {
        seq![Seq::empty()]
    } else {
        let before = split_dots(s.drop_last());
        if s.last() == '.' {
            before.push(Seq::empty())
        } else {
            before.drop_last().push(before.last().push(s.last()))
        }
    }
}

/// The segments of a dotted key. The empty key has no segment at all; any other key
/// has the pieces between its dots.
pub open spec fn segments(key: Seq<char>) -> Seq<Seq<char>> {
    if key.len() == 0 {
        Seq::empty()
    } else {
        split_dots(key)
    }
}

/// A path that an edit accepts: at least one segment, and none of them empty.
pub open spec fn is_valid_path(path: Seq<Seq<char>>) -> bool {
    path.len() > 0 && forall|i: int| 0 <= i < path.len() ==> (#[trigger] path[i]).len() > 0
}

/// The segments with a dot between each two neighbours.
pub open spec fn join_dots(path: Seq<Seq<char>>) -> Seq<char>
    decreases path.len(),
{
    if path.len() == 0 {
        Seq::empty()
    } else if path.len() == 1 {
        path[0]
    } else {
        join_dots(path.drop_last()) + seq!['.'] + path.last()
    }
}

/// The strings of `parts` as a path.
pub open spec fn path_of(parts: Seq<&str>) -> Seq<Seq<char>> {
    Seq::new(parts.len(), |i: int| parts[i]@)
}

/// Splitting never yields an empty list of pieces.
pub proof fn lemma_split_dots_nonempty(s: Seq<char>)
    ensures
        split_dots(s).len() > 0,
    decreases s.len(),
{
    if s.len() > 0 {
        lemma_split_dots_nonempty(s.drop_last());
    }
}

/// No piece of a split holds a dot.
pub proof fn lemma_split_dots_has_no_dot(s: Seq<char>, i: int, j: int)
    requires
        0 <= i < split_dots(s).len(),
        0 <= j < split_dots(s)[i].len(),
    ensures
        split_dots(s)[i][j] != '.',
    decreases s.len(),
{
    if s.len() > 0 {
        let before = split_dots(s.drop_last());
        lemma_split_dots_nonempty(s.drop_last());
        if s.last() == '.' {
            lemma_split_dots_has_no_dot(s.drop_last(), i, j);
        } else if i < before.len() - 1 {
            lemma_split_dots_has_no_dot(s.drop_last(), i, j);
        } else if j < before.last().len() {
            lemma_split_dots_has_no_dot(s.drop_last(), i, j);
        }
    }
}

/// Joining the pieces of a split with dots gives the string back.
pub proof fn lemma_join_split(s: Seq<char>)
    ensures
        join_dots(split_dots(s)) == s,
    decreases s.len(),
{
    if s.len() == 0 {
        assert(join_dots(split_dots(s)) =~= s);
    } else {
        let init = s.drop_last();
        let before = split_dots(init);
        lemma_split_dots_nonempty(init);
        lemma_join_split(init);
        if s.last() == '.' {
            let after = before.push(Seq::empty());
            assert(after.drop_last() =~= before);
            assert(join_dots(after) =~= init + seq!['.']);
            assert(init + seq!['.'] =~= s);
        } else {
            let grown = before.last().push(s.last());
            let after = before.drop_last().push(grown);
            assert(after.drop_last() =~= before.drop_last());
            if before.len() == 1 {
                assert(join_dots(before) == before[0]);
                assert(join_dots(after) =~= init.push(s.last()));
            } else {
                assert(join_dots(after) =~= join_dots(before.drop_last()) + seq!['.'] + grown);
                assert(join_dots(before) =~= join_dots(before.drop_last()) + seq!['.']
                    + before.last());
                assert(join_dots(after) =~= join_dots(before).push(s.last()));
            }
            assert(init.push(s.last()) =~= s);
        }
    }
}

/// Joining the segments of a key with dots gives the key back.
pub proof fn law_join_segments(key: Seq<char>)
    ensures
        join_dots(segments(key)) == key,
{
    if key.len() == 0 {
        assert(join_dots(segments(key)) =~= key);
    } else {
        lemma_join_split(key);
    }
}

/// Splits a dotted key into its segments.
///
/// The empty key has no segments. Any other key is cut at each dot, so `"a..b"` has
/// an empty segment in the middle.
pub fn split_key<'a>(key: &'a str) -> (parts: Vec<&'a str>)
    ensures
        path_of(parts@) == segments(key@),
{
    let mut parts: Vec<&'a str> = Vec::new();
    let n: usize = key.unicode_len();
    if n == 0 {
        assert(path_of(parts@) =~= segments(key@));
        return parts;
    }
    let mut start: usize = 0;
    let mut i: usize = 0;
    proof {
        assert(key@.take(0) =~= Seq::<char>::empty());
        assert(key@.subrange(0, 0) =~= Seq::<char>::empty());
        assert(path_of(parts@).push(key@.subrange(0, 0)) =~= split_dots(key@.take(0)));
    }
    while i < n
        invariant
            n == key@.len(),
            start <= i <= n,
            path_of(parts@).push(key@.subrange(start as int, i as int)) == split_dots(
                key@.take(i as int),
            ),
        decreases n - i,
    {
        let c: char = key.get_char(i);
        let ghost done = path_of(parts@);
        let ghost piece = key@.subrange(start as int, i as int);
        proof {
            assert(key@.take(i + 1).drop_last() =~= key@.take(i as int));
            assert(key@.take(i + 1).last() == c);
            assert(done.push(piece).drop_last() =~= done);
            assert(done.push(piece).last() == piece);
        }
        if c == '.' {
            let part: &'a str = key.substring_char(start, i);
            parts.push(part);
            start = i + 1;
            proof {
                assert(path_of(parts@) =~= done.push(piece));
                assert(key@.subrange(start as int, i + 1) =~= Seq::<char>::empty());
            }
        } else {
            proof {
                assert(key@.subrange(start as int, i + 1) =~= piece.push(c));
            }
        }
        i = i + 1;
    }
    let part: &'a str = key.substring_char(start, n);
    let ghost done = path_of(parts@);
    parts.push(part);
    proof {
        assert(key@.take(n as int) =~= key@);
        assert(path_of(parts@) =~= done.push(key@.subrange(start as int, n as int)));
    }
    parts
}

/// Whether the path has at least one segment and no empty one.
pub fn check_path(parts: &Vec<&str>) -> (ok: bool)
    ensures
        ok == is_valid_path(path_of(parts@)),
{
    if parts.len() == 0 {
        return false;
    }
    let mut i: usize = 0;
    while i < parts.len()
        invariant
            i <= parts.len(),
            forall|j: int| 0 <= j < i ==> (#[trigger] path_of(parts@)[j]).len() > 0,
        decreases parts.len() - i,
    {
        if parts[i].is_empty() {
            assert(path_of(parts@)[i as int].len() == 0);
            return false;
        }
        i = i + 1;
    }
    true
}

} // verus!
