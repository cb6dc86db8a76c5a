use vstd::prelude::*;
use std::collections::HashMap;
use crate::time::Instant;

verus! {

broadcast use vstd::std_specs::hash::group_hash_axioms;

/// A session: its id, its connection, and when it was set up.
pub struct Session<C> {
    pub id: u32,
    pub conn: C,
    pub established_at: Instant,
}

/// Sessions by id, and the id the next session gets.
pub struct SessionTable<C> {
    pub sessions: HashMap<u32, C>,
    pub next_session_id: u32,
}

impl<C> SessionTable<C> {
    /// No sessions; the first gets id 1.
    pub fn new() -> (t: Self)
        ensures
            t.sessions@ == Map::<u32, C>::empty(),
            t.next_session_id == 1,
    {
        SessionTable { sessions: HashMap::new(), next_session_id: 1 }
    }

    /// Stores `conn` under the next id, which it returns; the id after it
    /// is next. The next id must not be the largest `u32`.
    pub fn create_session(&mut self, conn: C) -> (id: u32)
        requires
            old(self).next_session_id < u32::MAX,
        ensures
            id == old(self).next_session_id,
            final(self).next_session_id == id + 1,
            final(self).sessions@ == old(self).sessions@.insert(id, conn),
    {
        let id = self.next_session_id;
        self.next_session_id = id + 1;
        self.sessions.insert(id, conn);
        id
    }

    /// The connection of session `id`, if there is one.
    pub fn get_session(&self, id: u32) -> (r: Option<&C>)
        ensures
            match r {
                Some(c) => self.sessions@.contains_key(id) && *c == self.sessions@[id],
                None => !self.sessions@.contains_key(id),
            },
    {
        self.sessions.get(&id)
    }

    /// Forgets session `id`.
    pub fn remove_session(&mut self, id: u32)
        ensures
            final(self).sessions@ == old(self).sessions@.remove(id),
            final(self).next_session_id == old(self).next_session_id,
    {
        self.sessions.remove(&id);
    }
}

/// A session created is found under its id until it is removed; creating or
/// removing other sessions leaves it be.
pub proof fn lemma_session_found<C>(m: Map<u32, C>, id: u32, conn: C, other: u32)
    requires
        other != id,
    ensures
        m.insert(id, conn)[id] == conn,
        m.insert(id, conn).remove(other).contains_key(id),
        !m.insert(id, conn).remove(id).contains_key(id),
{
}

} // verus!
