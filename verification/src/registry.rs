//! The connection registry: which users are online, and the handle of each
//! user's outbound delivery task. A handle is an opaque number the hosting
//! layer associates with the real transport.

use vstd::prelude::*;
use crate::strmap::StrMap;

verus! {

/// Maps online user identifiers to their outbound delivery handle. A new
/// connection for the same identity supersedes the old one, last writer
/// wins.
pub struct ConnectionRegistry {
    connections: StrMap<u64>,
}

impl View for ConnectionRegistry {
    type V = Map<Seq<char>, u64>;

    closed spec fn view(&self) -> Map<Seq<char>, u64> {
        self.connections@
    }
}

impl ConnectionRegistry {
    pub closed spec fn wf(&self) -> bool {
        self.connections.wf()
    }

    pub fn new() -> (r: Self)
        ensures
            r.wf(),
            r@ == Map::<Seq<char>, u64>::empty(),
    {
        ConnectionRegistry { connections: StrMap::new() }
    }

    /// Inserts or replaces the delivery handle for a user.
    pub fn add_user_connection(&mut self, user_id: String, handle: u64)
        requires
            old(self).wf(),
        ensures
            final(self).wf(),
            final(self)@ == old(self)@.insert(user_id@, handle),
    {
        self.connections.insert(user_id, handle);
    }

    /// Removes the user's entry if present; a no-op otherwise.
    pub fn remove_user_connection(&mut self, user_id: &String)
        requires
            old(self).wf(),
        ensures
            final(self).wf(),
            final(self)@ == old(self)@.remove(user_id@),
    {
        self.connections.remove(user_id);
    }

    /// The user's delivery handle, when one is registered.
    pub fn resolve(&self, user_id: &String) -> (r: Option<u64>)
        requires
            self.wf(),
        ensures
            match r {
                Some(h) => self@.contains_key(user_id@) && h == self@[user_id@],
                None => !self@.contains_key(user_id@),
            },
    {
        match self.connections.get(user_id) {
            Some(h) => Some(*h),
            None => None,
        }
    }

    /// A snapshot of the online users, each exactly once; it may be stale
    /// immediately after return.
    pub fn get_online_users(&self) -> (r: Vec<String>)
        requires
            self.wf(),
        ensures
            forall|i: int| 0 <= i < r@.len() ==> self@.contains_key(#[trigger] r@[i]@),
            forall|k: Seq<char>| self@.contains_key(k) ==> exists|i: int|
                0 <= i < r@.len() && #[trigger] r@[i]@ == k,
            forall|i: int, j: int| 0 <= i < j < r@.len() ==> r@[i]@ != r@[j]@,
    {
        self.connections.keys()
    }
}

} // verus!
