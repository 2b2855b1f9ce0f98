//! An in-memory backend: a reference implementation of the store contract.

use crate::store::Store;
use vstd::prelude::*;

verus! {

/// The error type of [`MemStore`]. No value of it is ever produced: an
/// in-memory store cannot fail.
#[derive(Debug, Clone, Copy, PartialEq, Eq)]
pub struct NoError;

/// The map described by a run of recorded pairs: a later pair for the same
/// key supersedes an earlier one.
pub open spec fn pairs_view(s: Seq<(String, String)>) -> Map<Seq<char>, Seq<char>>
    decreases s.len(),
{
    if s.len() == 0 {
        Map::empty()
    } else {
        pairs_view(s.drop_last()).insert(s.last().0@, s.last().1@)
    }
}

/// An in-memory key-value store that never fails.
///
/// It records every `set` in order and reads the most recent value of a key,
/// which makes it a faithful stand-in for a remote backend in reasoning and
/// in tests: its contents are exactly the map its history describes.
pub struct MemStore {
    entries: Vec<(String, String)>,
}

impl MemStore {
    /// An empty store: no key has a value yet.
    pub fn new() -> (r: Self)
        ensures
            r.contents() == Map::<Seq<char>, Seq<char>>::empty(),
    {
        MemStore { entries: Vec::new() }
    }
}

/// Reading a key in the map that a run of pairs describes is unchanged by a
/// recorded pair whose key differs.
proof fn lemma_pairs_view_skip(s: Seq<(String, String)>, i: int, k: Seq<char>)
    requires
        0 <= i < s.len(),
        s[i].0@ != k,
    ensures
        pairs_view(s.take(i + 1)).contains_key(k) == pairs_view(s.take(i)).contains_key(k),
        pairs_view(s.take(i + 1)).contains_key(k) ==> pairs_view(s.take(i + 1))[k] == pairs_view(
            s.take(i),
        )[k],
{
    let t = s.take(i + 1);
    assert(t.len() == i + 1);
    assert(t.last() == s[i]);
    assert(t.drop_last() =~= s.take(i));
}

/// The most recently recorded pair of a key gives its value in the map that
/// the run describes.
proof fn lemma_pairs_view_found(s: Seq<(String, String)>, i: int)
    requires
        0 <= i < s.len(),
    ensures
        pairs_view(s.take(i + 1)).contains_key(s[i].0@),
        pairs_view(s.take(i + 1))[s[i].0@] == s[i].1@,
{
    let t = s.take(i + 1);
    assert(t.len() == i + 1);
    assert(t.last() == s[i]);
}

impl Store for MemStore {
    type Error = NoError;

    /// The map that the recorded history describes.
    closed spec fn contents(&self) -> Map<Seq<char>, Seq<char>> {
        pairs_view(self.entries@)
    }

    /// An in-memory store has no possible error.
    open spec fn possible_error(&self, e: NoError) -> bool {
        false
    }

    fn get(&self, key: &str) -> (r: Result<Option<String>, NoError>) {
        let k = key.to_owned();
        let mut i: usize = self.entries.len();
        proof {
            assert(self.entries@.take(i as int) =~= self.entries@);
        }
        while i > 0
            invariant
                i <= self.entries@.len(),
                k@ == key@,
                pairs_view(self.entries@).contains_key(key@) == pairs_view(
                    self.entries@.take(i as int),
                ).contains_key(key@),
                pairs_view(self.entries@).contains_key(key@) ==> pairs_view(self.entries@)[key@]
                    == pairs_view(self.entries@.take(i as int))[key@],
            decreases i,
        {
            let j = i - 1;
            if self.entries[j].0 == k {
                proof {
                    lemma_pairs_view_found(self.entries@, j as int);
                }
                return Ok(Some(self.entries[j].1.clone()));
            }
            proof {
                lemma_pairs_view_skip(self.entries@, j as int, key@);
            }
            i = j;
        }
        proof {
            assert(self.entries@.take(0) =~= Seq::<(String, String)>::empty());
        }
        Ok(None)
    }

    fn set(&mut self, key: &str, value: &str) -> (r: Result<(), NoError>) {
        self.entries.push((key.to_owned(), value.to_owned()));
        proof {
            assert(self.entries@.drop_last() =~= old(self).entries@);
        }
        Ok(())
    }
}

} // verus!
