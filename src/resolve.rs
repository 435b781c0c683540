//! Key paths and their resolution against a document.

use vstd::prelude::*;
use crate::value::{lookup, table_get, DocValue};

verus! {

/// The pieces of `s` between occurrences of `sep`, in order. An empty text
/// gives one empty piece; a separator at either end gives an empty piece
/// there.
pub open spec fn split_on(s: Seq<char>, sep: char) -> Seq<Seq<char>>
    decreases s.len(),
{
    if s.len() == 0 {
        seq![Seq::<char>::empty()]
    } else {
        let init = split_on(s.drop_last(), sep);
        if s.last() == sep {
            init.push(Seq::<char>::empty())
        } else {
            init.update(init.len() - 1, init.last().push(s.last()))
        }
    }
}

proof fn lemma_split_nonempty(s: Seq<char>, sep: char)
    ensures
        split_on(s, sep).len() >= 1,
    decreases s.len(),
{
    if s.len() > 0 {
        lemma_split_nonempty(s.drop_last(), sep);
    }
}

/// The views of a sequence of strings.
pub open spec fn views(v: Seq<String>) -> Seq<Seq<char>> {
    v.map_values(|s: String| s@)
}

/// Splits a dotted key into its segments.
pub fn split_key(key: &str) -> (r: Vec<String>)
    ensures
        views(r@) == split_on(key@, '.'),
{
    let n = key.unicode_len();
    let mut done: Vec<String> = Vec::new();
    let mut start: usize = 0;
    let mut i: usize = 0;
    proof {
        let e = key@.subrange(0, 0);
        assert(e =~= Seq::<char>::empty());
        assert(views(done@) =~= Seq::<Seq<char>>::empty());
        assert(views(done@).push(e) =~= split_on(e, '.'));
    }
    while i < n
        invariant
            n == key@.len(),
            start <= i <= n,
            views(done@).push(key@.subrange(start as int, i as int)) == split_on(
                key@.subrange(0, i as int),
                '.',
            ),
        decreases n - i,
    {
        let c = key.get_char(i);
        proof {
            let pre = key@.subrange(0, i + 1);
            assert(pre.drop_last() =~= key@.subrange(0, i as int));
            assert(pre.last() == c);
            lemma_split_nonempty(key@.subrange(0, i as int), '.');
        }
        if c == '.' {
            let piece = key.substring_char(start, i).to_owned();
            let ghost before = done@;
            done.push(piece);
            start = i + 1;
            proof {
                assert(views(done@) =~= views(before).push(piece@));
                assert(key@.subrange(start as int, i + 1) =~= Seq::<char>::empty());
            }
        } else {
            proof {
                assert(key@.subrange(start as int, i + 1) =~= key@.subrange(start as int, i as int).push(c));
            }
        }
        i = i + 1;
    }
    let last = key.substring_char(start, n).to_owned();
    let ghost before = done@;
    done.push(last);
    proof {
        assert(views(done@) =~= views(before).push(last@));
        assert(key@.subrange(0, n as int) =~= key@);
    }
    done
}

/// Why a key path does not lead to a value.
#[derive(Debug)]
pub enum ResolveError {
    /// The path has no segment at all.
    EmptyKey,
    /// A segment was to be looked up in a value that is not a table.
    NotATable,
    /// The table at hand has no entry under this segment.
    KeyNotFound(String),
}

/// What resolving a key path comes to.
pub enum Resolution {
    Found(DocValue),
    EmptyKey,
    NotATable,
    KeyNotFound(Seq<char>),
}

/// Walks from `v` through the tables named by `segs`, one segment at a time,
/// and stops at exactly the depth of the path.
pub open spec fn walk(v: DocValue, segs: Seq<Seq<char>>) -> Resolution
    decreases segs.len(),
{
    if segs.len() == 0 {
        Resolution::Found(v)
    } else {
        match v {
            DocValue::Table(entries) => match lookup(entries@, segs[0]) {
                Some(child) => walk(child, segs.subrange(1, segs.len() as int)),
                None => Resolution::KeyNotFound(segs[0]),
            },
            _ => Resolution::NotATable,
        }
    }
}

/// The value that the path `segs` names under `root`; a path without
/// segments names nothing.
pub open spec fn resolve_path(root: DocValue, segs: Seq<Seq<char>>) -> Resolution {
    if segs.len() == 0 {
        Resolution::EmptyKey
    } else {
        walk(root, segs)
    }
}

/// What an executable resolution result stands for.
pub open spec fn resolution_of(r: Result<&DocValue, ResolveError>) -> Resolution {
    match r {
        Ok(v) => Resolution::Found(*v),
        Err(ResolveError::EmptyKey) => Resolution::EmptyKey,
        Err(ResolveError::NotATable) => Resolution::NotATable,
        Err(ResolveError::KeyNotFound(k)) => Resolution::KeyNotFound(k@),
    }
}

/// Resolves the key path `segs` under `root`. The first failure ends the
/// walk; a value reached by the last segment is returned as it is, table or
/// not.
pub fn resolve<'a>(root: &'a DocValue, segs: &Vec<String>) -> (r: Result<&'a DocValue, ResolveError>)
    ensures
        resolution_of(r) == resolve_path(*root, views(segs@)),
{
    if segs.len() == 0 {
        return Err(ResolveError::EmptyKey);
    }
    let ghost all = views(segs@);
    let mut current: &DocValue = root;
    let mut i: usize = 0;
    assert(all.subrange(0, all.len() as int) =~= all);
    while i < segs.len()
        invariant
            all == views(segs@),
            i <= segs@.len(),
            walk(*root, all) == walk(*current, all.subrange(i as int, all.len() as int)),
        decreases segs@.len() - i,
    {
        let ghost rest = all.subrange(i as int, all.len() as int);
        assert(rest.subrange(1, rest.len() as int) =~= all.subrange(i + 1, all.len() as int));
        assert(rest[0] == segs@[i as int]@);
        match current {
            DocValue::Table(entries) => match table_get(entries, &segs[i]) {
                Some(child) => {
                    current = child;
                },
                None => {
                    return Err(ResolveError::KeyNotFound(segs[i].clone()));
                },
            },
            _ => {
                return Err(ResolveError::NotATable);
            },
        }
        i = i + 1;
    }
    assert(all.subrange(segs@.len() as int, all.len() as int) =~= Seq::<Seq<char>>::empty());
    Ok(current)
}

/// Walking a path in two parts is walking the first part, then the second
/// from where the first one ended.
pub proof fn lemma_walk_concat(v: DocValue, p: Seq<Seq<char>>, q: Seq<Seq<char>>)
    ensures
        walk(v, p + q) == match walk(v, p) {
            Resolution::Found(w) => walk(w, q),
            other => other,
        },
    decreases p.len(),
{
    if p.len() == 0 {
        assert(p + q =~= q);
    } else {
        let pq = p + q;
        assert(pq[0] == p[0]);
        assert(pq.subrange(1, pq.len() as int) =~= p.subrange(1, p.len() as int) + q);
        if let DocValue::Table(entries) = v {
            if let Some(child) = lookup(entries@, p[0]) {
                lemma_walk_concat(child, p.subrange(1, p.len() as int), q);
            }
        }
    }
}

/// A path that reaches a value other than a table before its last segment
/// fails with `NotATable`, whatever the segments after it are.
pub proof fn non_table_stops_the_walk(root: DocValue, segs: Seq<Seq<char>>, k: int, reached: DocValue)
    requires
        0 < k < segs.len(),
        walk(root, segs.subrange(0, k)) == Resolution::Found(reached),
        !(reached is Table),
    ensures
        resolve_path(root, segs) == Resolution::NotATable,
{
    lemma_walk_concat(root, segs.subrange(0, k), segs.subrange(k, segs.len() as int));
    assert(segs.subrange(0, k) + segs.subrange(k, segs.len() as int) =~= segs);
}

/// A path whose last segment is absent from the table that the segments
/// before it reach fails with `KeyNotFound` of that segment.
pub proof fn absent_last_segment_is_not_found(
    root: DocValue,
    front: Seq<Seq<char>>,
    last: Seq<char>,
    entries: Vec<(String, DocValue)>,
)
    requires
        walk(root, front) == Resolution::Found(DocValue::Table(entries)),
        lookup(entries@, last) is None,
    ensures
        resolve_path(root, front.push(last)) == Resolution::KeyNotFound(last),
{
    lemma_walk_concat(root, front, seq![last]);
    assert(front + seq![last] =~= front.push(last));
}

} // verus!
