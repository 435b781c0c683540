//! The document value model: a closed tagged union over the kinds of value
//! a TOML document holds.

use vstd::prelude::*;

verus! {

/// One value of a document.
///
/// A float and a date-time are held as the text that prints them: the
/// logic never computes with them, it only prints them.
#[derive(Debug)]
pub enum DocValue {
    Str(String),
    Integer(i64),
    Float(String),
    Boolean(bool),
    Datetime(String),
    Array(Vec<DocValue>),
    Table(Vec<(String, DocValue)>),
}

/// The value bound to `key` among `entries`: the first entry whose key is
/// exactly `key`, compared character by character.
pub open spec fn lookup(entries: Seq<(String, DocValue)>, key: Seq<char>) -> Option<DocValue>
    decreases entries.len(),
{
    if entries.len() == 0 {
        None
    } else if entries[0].0@ == key {
        Some(entries[0].1)
    } else {
        lookup(entries.subrange(1, entries.len() as int), key)
    }
}

/// No two entries of a table share a key.
pub open spec fn keys_unique(entries: Seq<(String, DocValue)>) -> bool {
    forall|i: int, j: int|
        0 <= i < j < entries.len() ==> (#[trigger] entries[i]).0@ != (#[trigger] entries[j]).0@
}

/// Looks `key` up in the entries of a table. Where the keys are unique, as
/// in every table of a document, the result is the value of the one entry
/// that holds `key`.
pub fn table_get<'a>(entries: &'a Vec<(String, DocValue)>, key: &String) -> (r: Option<&'a DocValue>)
    ensures
        match r {
            Some(v) => lookup(entries@, key@) == Some(*v),
            None => lookup(entries@, key@) is None,
        },
        keys_unique(entries@) ==> forall|i: int|
            0 <= i < entries@.len() && (#[trigger] entries@[i]).0@ == key@ ==> (r matches Some(v)
                && *v == entries@[i].1),
{
    proof {
        if keys_unique(entries@) {
            assert forall|i: int|
                0 <= i < entries@.len() && (#[trigger] entries@[i]).0@ == key@ implies lookup(
                entries@,
                key@,
            ) == Some(entries@[i].1) by {
                lookup_finds_the_entry(entries@, i);
            }
        }
    }
    let mut i: usize = 0;
    assert(entries@.subrange(0, entries@.len() as int) =~= entries@);
    while i < entries.len()
        invariant
            i <= entries@.len(),
            lookup(entries@, key@) == lookup(entries@.subrange(i as int, entries@.len() as int), key@),
        decreases entries@.len() - i,
    {
        proof {
            let rest = entries@.subrange(i as int, entries@.len() as int);
            assert(rest.subrange(1, rest.len() as int) =~= entries@.subrange(
                i + 1,
                entries@.len() as int,
            ));
        }
        if entries[i].0 == *key {
            return Some(&entries[i].1);
        }
        i = i + 1;
    }
    None
}

/// In a table whose keys are unique, a key finds the one entry that holds it.
pub proof fn lookup_finds_the_entry(entries: Seq<(String, DocValue)>, i: int)
    requires
        keys_unique(entries),
        0 <= i < entries.len(),
    ensures
        lookup(entries, entries[i].0@) == Some(entries[i].1),
    decreases entries.len(),
{
    if i > 0 {
        let rest = entries.subrange(1, entries.len() as int);
        assert(rest[i - 1] == entries[i]);
        assert(entries[0].0@ != entries[i].0@);
        assert(keys_unique(rest)) by {
            assert forall|a: int, b: int| 0 <= a < b < rest.len() implies (#[trigger] rest[a]).0@
                != (#[trigger] rest[b]).0@ by {
                assert(rest[a] == entries[a + 1]);
                assert(rest[b] == entries[b + 1]);
            }
        }
        lookup_finds_the_entry(rest, i - 1);
    }
}

} // verus!
