//! A backend whose every operation fails: the degenerate end of the store
//! contract, useful to observe that deriving scopes alone never reaches the
//! backend, and that a scope passes a backend's error through unchanged.

use crate::store::Store;
use vstd::prelude::*;

verus! {

/// A store whose every `get` and `set` fails with the fixed error code it
/// was constructed with. It holds no data: its contents stay empty.
pub struct FailStore {
    code: u64,
}

impl FailStore {
    /// The error code every operation fails with.
    pub closed spec fn spec_code(&self) -> u64 {
        self.code
    }

    /// A store that fails every operation with the given code.
    pub fn new(code: u64) -> (r: Self)
        ensures
            r.spec_code() == code,
            r.contents() == Map::<Seq<char>, Seq<char>>::empty(),
    {
        FailStore { code }
    }
}

impl Store for FailStore {
    type Error = u64;

    /// Nothing can be stored: the contents stay empty.
    closed spec fn contents(&self) -> Map<Seq<char>, Seq<char>> {
        Map::empty()
    }

    /// The one error this store surfaces is its own code.
    open spec fn possible_error(&self, e: u64) -> bool {
        e == self.spec_code()
    }

    fn get(&self, key: &str) -> (r: Result<Option<String>, u64>)
        ensures
            r matches Err(e) && e == self.spec_code(),
    {
        Err(self.code)
    }

    fn set(&mut self, key: &str, value: &str) -> (r: Result<(), u64>)
        ensures
            r matches Err(e) && e == old(self).spec_code(),
            *final (self) == *old(self),
    {
        Err(self.code)
    }
}

} // verus!
