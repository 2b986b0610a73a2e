//! Group state
//!
//! This module contains all the logic related to group management.

use super::parameters::Parameters;
use super::session::{Session, SessionId, SessionKind, SessionValue};
use super::ClientId;
use crate::id::{is_random_id, random_id};
use std::collections::hash_map::Entry;
use std::collections::{HashMap, HashSet};
use vstd::prelude::*;

verus! {

/// Unique ID of a group.
pub type GroupId = u128;

/// Error type for group operations.
#[derive(Debug, Clone, Copy, PartialEq, Eq, Structural)]
pub enum GroupError {
    /// Error generated when the group is full.
    GroupFull,
}

impl GroupError {
    /// The text of the error, as a sequence of characters.
    pub open spec fn message(self) -> Seq<char> {
        "group is full"@
    }

    /// Renders the error for a human reader.
    pub fn to_string(&self) -> (s: String)
        ensures
            s@ == self.message(),
    {
        "group is full".to_owned()
    }
}

/// Group is a collection of clients. It is the main unit of communication.
#[derive(Debug)]
pub struct Group {
    /// Unique ID of the group.
    pub id: GroupId,
    /// Parameters of the group.
    pub params: Parameters,
    /// Sessions belonging to this group.
    pub sessions: HashMap<SessionId, Session>,
    /// Clients that joined this group.
    pub clients: HashSet<ClientId>,
}

impl Group {
    /// The clients that have joined the group.
    pub open spec fn members(&self) -> Set<ClientId> {
        self.clients@
    }

    /// The invariant of a group: it has at most `n` members, and each of its
    /// sessions is well formed and filed under its own id.
    pub open spec fn wf(&self) -> bool {
        &&& self.members().finite()
        &&& self.members().len() <= self.params.n()
        &&& forall|session_id: SessionId| #[trigger]
            self.sessions@.contains_key(session_id) ==> self.sessions@[session_id].wf()
                && self.sessions@[session_id].id == session_id
    }

    /// Holds of a group as it is created: it has the given id and
    /// parameters, and neither members nor sessions.
    pub open spec fn is_new(&self, id: GroupId, params: Parameters) -> bool {
        &&& self.id == id
        &&& self.params == params
        &&& self.sessions@ == Map::<SessionId, Session>::empty()
        &&& self.members() == Set::<ClientId>::empty()
    }

    /// Holds where `post` is this group but for its members.
    pub open spec fn same_but_members(&self, post: Group) -> bool {
        &&& post.id == self.id
        &&& post.params == self.params
        &&& post.sessions@ == self.sessions@
    }

    /// Holds where `post` is this group but for the session filed under
    /// `session_id`.
    pub open spec fn same_but_session(&self, post: Group, session_id: SessionId) -> bool {
        &&& post.id == self.id
        &&& post.params == self.params
        &&& post.members() == self.members()
        &&& post.sessions@.contains_key(session_id)
        &&& post.sessions@ == self.sessions@.insert(session_id, post.sessions@[session_id])
    }

    /// Creates a new group with the given parameters.
    pub fn new(id: GroupId, params: Parameters) -> (group: Self)
        ensures
            group.wf(),
            group.is_new(id, params),
    {
        Self { id, params, sessions: HashMap::new(), clients: HashSet::new() }
    }

    /// Adds a client to the group.
    pub fn add_client(&mut self, client_id: ClientId) -> (r: Result<(), GroupError>)
        requires
            old(self).wf(),
        ensures
            final(self).wf(),
            old(self).same_but_members(*final(self)),
            old(self).members().len() >= old(self).params.n() ==> r == Err::<(), GroupError>(
                GroupError::GroupFull,
            ) && final(self).members() == old(self).members(),
            old(self).members().len() < old(self).params.n() ==> r is Ok && final(self).members()
                == old(self).members().insert(client_id),
    {
        let clients = self.clients.len();
        if clients >= self.params.n() as usize {
            return Err(GroupError::GroupFull);
        }
        self.clients.insert(client_id);
        Ok(())
    }

    /// Removes a client from the group.
    pub fn drop_client(&mut self, client_id: ClientId)
        requires
            old(self).wf(),
        ensures
            final(self).wf(),
            old(self).same_but_members(*final(self)),
            final(self).members() == old(self).members().remove(client_id),
    {
        self.clients.remove(&client_id);
    }

    /// Adds a new session and adds it to the group.
    pub fn add_session(&mut self, kind: SessionKind, value: SessionValue) -> (session: Session)
        requires
            old(self).wf(),
        ensures
            final(self).wf(),
            is_random_id(session.id),
            old(self).same_but_session(*final(self), session.id),
            final(self).sessions@[session.id].is_new(session.id, kind, value),
            session.wf(),
            session.is_new(session.id, kind, value),
    {
        let session_id = random_id();
        self.insert_session(session_id, kind, value)
    }

    /// Files a new session under `session_id` and returns a copy of it. A
    /// session that was filed under that id before is replaced.
    pub fn insert_session(
        &mut self,
        session_id: SessionId,
        kind: SessionKind,
        value: SessionValue,
    ) -> (session: Session)
        requires
            old(self).wf(),
        ensures
            final(self).wf(),
            old(self).same_but_session(*final(self), session_id),
            final(self).sessions@[session_id].is_new(session_id, kind, value),
            session.wf(),
            session.is_new(session_id, kind, value),
    {
        let session = Session::new(session_id, kind, value);
        let session_c = session.clone();
        self.sessions.insert(session_id, session);
        session_c
    }

    /// Returns a session by its ID, if it exists.
    pub fn get_session(&self, session_id: &SessionId) -> (r: Option<&Session>)
        ensures
            match r {
                Some(session) => self.sessions@.contains_key(*session_id) && *session
                    == self.sessions@[*session_id],
                None => !self.sessions@.contains_key(*session_id),
            },
    {
        self.sessions.get(session_id)
    }

    /// Returns a mutable session by its ID, if it exists.
    pub fn get_session_mut(&mut self, session_id: &SessionId) -> (r: Option<&mut Session>)
        ensures
            final(self).id == old(self).id,
            final(self).params == old(self).params,
            final(self).clients == old(self).clients,
            match r {
                Some(session) => old(self).sessions@.contains_key(*session_id) && *session == old(
                    self,
                ).sessions@[*session_id] && final(self).sessions@ == old(self).sessions@.insert(
                    *session_id,
                    *final(session),
                ),
                None => !old(self).sessions@.contains_key(*session_id) && final(self).sessions@
                    == old(self).sessions@,
            },
    {
        match self.sessions.entry(*session_id) {
            Entry::Occupied(entry) => Some(entry.into_mut()),
            Entry::Vacant(_) => None,
        }
    }

    /// Returns a boolean indicating if the group is empty.
    pub fn is_empty(&self) -> (empty: bool)
        requires
            self.wf(),
        ensures
            empty == (self.members().len() == 0),
            empty == self.members().is_empty(),
    {
        self.clients.len() == 0
    }

    /// Returns a boolean indicating if the group is full.
    pub fn is_full(&self) -> (full: bool)
        ensures
            full == (self.members().len() == self.params.n()),
    {
        self.clients.len() == self.params.n() as usize
    }

    /// Returns the ID of the group.
    pub fn id(&self) -> (id: GroupId)
        ensures
            id == self.id,
    {
        self.id
    }

    /// Returns the client ids associated with the group.
    pub fn clients(&self) -> (clients: &HashSet<ClientId>)
        ensures
            clients@ == self.members(),
    {
        &self.clients
    }
}

impl Clone for Group {
    /// Clones the id and the parameters of the group, disregarding members
    /// and sessions: the copy has neither.
    fn clone(&self) -> (copy: Self)
        ensures
            copy.wf(),
            copy.is_new(self.id, self.params),
    {
        Self {
            id: self.id,
            params: self.params,
            sessions: HashMap::new(),
            clients: HashSet::new(),
        }
    }
}

} // verus!
