//! State module.
//!
//! This module contains the state of the coordinator and the different types
//! used to represent it.

use self::group::{Group, GroupId};
use self::parameters::Parameters;
use self::session::{
    Session, SessionError, SessionId, SessionKind, SessionPartyNumber, SessionValue,
};
use crate::id::{hyphenated, hyphenated_text, is_random_id, random_id};
use crate::text::{decimal, decimal_text};
use std::collections::hash_map::Entry;
use std::collections::HashMap;
use tokio::sync::mpsc::UnboundedSender;
use vstd::prelude::*;
use vstd::std_specs::hash::{spec_hash_keys_iter, spec_keys_iter};
use vstd::std_specs::iter::IteratorSpec;
use vstd::string::*;

pub mod group;
pub mod parameters;
pub mod session;

verus! {

/// The producing end of a connection's outbound queue. The state keeps one
/// for each client and hands it out; it never sends on it.
#[verifier::external_type_specification]
#[verifier::external_body]
#[verifier::reject_recursive_types(T)]
pub struct ExUnboundedSender<T>(tokio::sync::mpsc::UnboundedSender<T>);

/// Unique ID of a client.
pub type ClientId = u128;

/// Error type for state operations.
#[derive(Debug, Clone, Copy, PartialEq, Eq, Structural)]
pub enum StateError {
    /// Error generated when a group was not found.
    GroupNotFound(GroupId),
    /// Error generated when a session was not found.
    SessionNotFound(SessionId, GroupId),
    /// Error generated when a group is already full.
    GroupIsFull(GroupId),
    /// Error generated when a party number was not found.
    PartyNotFound(SessionPartyNumber),
    /// Error generated when a client was not found.
    ClientNotFound(ClientId),
}

impl StateError {
    /// The text of the error, as a sequence of characters.
    pub open spec fn message(self) -> Seq<char> {
        match self {
            StateError::GroupNotFound(group_id) => "group `"@ + hyphenated_text(group_id)
                + "` not found"@,
            StateError::SessionNotFound(session_id, group_id) => "session `"@ + hyphenated_text(
                session_id,
            ) + "` fro group `"@ + hyphenated_text(group_id) + " not found"@,
            StateError::GroupIsFull(group_id) => "group '"@ + hyphenated_text(group_id)
                + "' is full"@,
            StateError::PartyNotFound(party_number) => "party `"@ + decimal_text(
                party_number as nat,
            ) + "` not found"@,
            StateError::ClientNotFound(client_id) => "client id `"@ + hyphenated_text(client_id)
                + "` not found"@,
        }
    }

    /// Renders the error for a human reader.
    pub fn to_string(&self) -> (s: String)
        ensures
            s@ == self.message(),
    {
        match self {
            StateError::GroupNotFound(group_id) => {
                let id = hyphenated(*group_id);
                String::from_str("group `").concat(id.as_str()).concat("` not found")
            },
            StateError::SessionNotFound(session_id, group_id) => {
                let session = hyphenated(*session_id);
                let group = hyphenated(*group_id);
                String::from_str("session `").concat(session.as_str()).concat(
                    "` fro group `",
                ).concat(group.as_str()).concat(" not found")
            },
            StateError::GroupIsFull(group_id) => {
                let id = hyphenated(*group_id);
                String::from_str("group '").concat(id.as_str()).concat("' is full")
            },
            StateError::PartyNotFound(party_number) => {
                let digits = decimal(*party_number);
                String::from_str("party `").concat(digits.as_str()).concat("` not found")
            },
            StateError::ClientNotFound(client_id) => {
                let id = hyphenated(*client_id);
                String::from_str("client id `").concat(id.as_str()).concat("` not found")
            },
        }
    }
}

/// Error of a login into a session: the state did not find the session, or
/// the session refused the party number.
#[derive(Debug, Clone, Copy, PartialEq, Eq, Structural)]
pub enum LoginError {
    /// The group or the session was not found.
    State(StateError),
    /// The session refused the login.
    Session(SessionError),
}

impl LoginError {
    /// The text of the error, as a sequence of characters.
    pub open spec fn message(self) -> Seq<char> {
        match self {
            LoginError::State(e) => e.message(),
            LoginError::Session(e) => e.message(),
        }
    }

    /// Renders the error for a human reader.
    pub fn to_string(&self) -> (s: String)
        ensures
            s@ == self.message(),
    {
        match self {
            LoginError::State(e) => e.to_string(),
            LoginError::Session(e) => e.to_string(),
        }
    }
}

/// What a disconnect of `client_id` makes of the groups: the client leaves
/// each of them, and the groups that are then empty are gone.
pub open spec fn dropped_from(
    pre: Map<GroupId, Group>,
    post: Map<GroupId, Group>,
    client_id: ClientId,
) -> bool {
    forall|group_id: GroupId|
        #![trigger post.contains_key(group_id)]
        #![trigger pre.contains_key(group_id)]
        {
            &&& post.contains_key(group_id) <==> pre.contains_key(group_id)
                && !pre[group_id].members().remove(client_id).is_empty()
            &&& post.contains_key(group_id) ==> pre[group_id].same_but_members(post[group_id])
                && post[group_id].members() == pre[group_id].members().remove(client_id)
        }
}

/// Shared state of clients and groups managed by the coordinator.
#[derive(Debug)]
pub struct State {
    /// Connected clients.
    clients: HashMap<ClientId, UnboundedSender<String>>,
    /// Collection of groups mapped by their id.
    groups: HashMap<GroupId, Group>,
}

impl State {
    /// The outbound queue of each connected client.
    pub closed spec fn clients(&self) -> Map<ClientId, UnboundedSender<String>> {
        self.clients@
    }

    /// The live groups.
    pub closed spec fn groups(&self) -> Map<GroupId, Group> {
        self.groups@
    }

    /// The invariant of the state: each group is well formed and filed
    /// under its own id.
    pub open spec fn wf(&self) -> bool {
        forall|group_id: GroupId| #[trigger]
            self.groups().contains_key(group_id) ==> self.groups()[group_id].wf()
                && self.groups()[group_id].id == group_id
    }

    /// The session `session_id` of the group `group_id`, or the error that
    /// says which of the two is missing.
    pub open spec fn find_session(&self, group_id: GroupId, session_id: SessionId) -> Result<
        Session,
        StateError,
    > {
        if !self.groups().contains_key(group_id) {
            Err(StateError::GroupNotFound(group_id))
        } else if !self.groups()[group_id].sessions@.contains_key(session_id) {
            Err(StateError::SessionNotFound(session_id, group_id))
        } else {
            Ok(self.groups()[group_id].sessions@[session_id])
        }
    }

    /// Holds where `post` is this state but for the group filed under
    /// `group_id`.
    pub open spec fn same_but_group(&self, post: State, group_id: GroupId) -> bool {
        &&& post.clients() == self.clients()
        &&& post.groups().contains_key(group_id)
        &&& post.groups() == self.groups().insert(group_id, post.groups()[group_id])
    }

    /// Holds where `post` is this state but for the session `session_id` of
    /// the group `group_id`, both of which are in this state.
    pub open spec fn same_but_session(
        &self,
        post: State,
        group_id: GroupId,
        session_id: SessionId,
    ) -> bool {
        &&& self.find_session(group_id, session_id) is Ok
        &&& self.same_but_group(post, group_id)
        &&& self.groups()[group_id].same_but_session(post.groups()[group_id], session_id)
    }

    /// Holds while a signup of `client_id` into the session can be served:
    /// where the session exists, it has room for the client.
    pub open spec fn has_room_for(
        &self,
        client_id: ClientId,
        group_id: GroupId,
        session_id: SessionId,
    ) -> bool {
        self.find_session(group_id, session_id) matches Ok(session) ==> session.has_room_for(
            client_id,
        )
    }

    /// Return new state, should only be called once.
    pub fn new() -> (state: Self)
        ensures
            state.wf(),
            state.clients() == Map::<ClientId, UnboundedSender<String>>::empty(),
            state.groups() == Map::<GroupId, Group>::empty(),
    {
        Self { clients: HashMap::new(), groups: HashMap::new() }
    }

    /// Returns a new client id.
    pub fn new_client_id(&self) -> (id: ClientId)
        ensures
            is_random_id(id),
    {
        random_id()
    }

    /// Adds a new client.
    pub fn add_client(&mut self, id: ClientId, tx: UnboundedSender<String>)
        ensures
            final(self).clients() == old(self).clients().insert(id, tx),
            final(self).groups() == old(self).groups(),
    {
        self.clients.insert(id, tx);
    }

    /// Returns client data.
    pub fn get_client(&self, id: &ClientId) -> (r: Option<&UnboundedSender<String>>)
        ensures
            match r {
                Some(tx) => self.clients().contains_key(*id) && *tx == self.clients()[*id],
                None => !self.clients().contains_key(*id),
            },
    {
        self.clients.get(id)
    }

    /// Returns a boolean indicating if the client is connected.
    pub fn has_client(&self, id: &ClientId) -> (found: bool)
        ensures
            found == self.clients().contains_key(*id),
    {
        self.clients.contains_key(id)
    }

    /// Returns the ids of the live groups, each once, in no particular order.
    pub fn group_ids(&self) -> (ids: Vec<GroupId>)
        ensures
            ids@.to_set() == self.groups().dom(),
            ids@.no_duplicates(),
    {
        let mut ids: Vec<GroupId> = Vec::new();
        let ghost all = spec_keys_iter(&self.groups).remaining();
        for group_id in iter: self.groups.keys()
            invariant
                iter.seq() == all,
                all == spec_keys_iter(&self.groups).remaining(),
                ids@.len() == iter.index(),
                forall|j: int| 0 <= j < ids@.len() ==> ids@[j] == *all[j],
        {
            ids.push(*group_id);
        }
        proof {
            assert(ids@ =~= all.unref());
            assert forall|i: int, j: int|
                0 <= i < ids@.len() && 0 <= j < ids@.len() && i != j implies ids@[i] != ids@[j] by {
                assert(all[i] != all[j]);
            }
        }
        ids
    }

    /// Drops a client, performing all necessary cleanup to preserve
    /// security: the client leaves every group, the groups that are empty
    /// after that are removed, and last the client itself is forgotten.
    pub fn drop_client(&mut self, id: ClientId)
        requires
            old(self).wf(),
        ensures
            final(self).wf(),
            dropped_from(old(self).groups(), final(self).groups(), id),
            final(self).clients() == old(self).clients().remove(id),
    {
        let group_ids = self.group_ids();
        let ghost pre = self.groups@;
        let mut i: usize = 0;
        while i < group_ids.len()
            invariant
                i <= group_ids.len(),
                old(self).wf(),
                pre == old(self).groups@,
                group_ids@.to_set() == pre.dom(),
                group_ids@.no_duplicates(),
                self.clients == old(self).clients,
                forall|g: GroupId| #[trigger] self.groups@.contains_key(g) ==> pre.contains_key(g),
                forall|j: int|
                    #![trigger group_ids@[j]]
                    0 <= j < i ==> {
                        let g = group_ids@[j];
                        &&& self.groups@.contains_key(g) <==> !pre[g].members().remove(
                            id,
                        ).is_empty()
                        &&& self.groups@.contains_key(g) ==> pre[g].same_but_members(
                            self.groups@[g],
                        ) && self.groups@[g].members() == pre[g].members().remove(id)
                            && self.groups@[g].wf()
                    },
                forall|j: int|
                    #![trigger group_ids@[j]]
                    i <= j < group_ids.len() ==> self.groups@.contains_key(group_ids@[j])
                        && self.groups@[group_ids@[j]] == pre[group_ids@[j]],
            decreases group_ids.len() - i,
        {
            let group_id = group_ids[i];
            let ghost before = self.groups@;
            assert(pre.dom().contains(group_id)) by {
                assert(group_ids@.contains(group_ids@[i as int]));
            }
            assert(old(self).groups().contains_key(group_id));
            assert(before[group_id].wf());
            let mut empty = false;
            match self.groups.entry(group_id) {
                Entry::Occupied(entry) => {
                    let group = entry.into_mut();
                    group.drop_client(id);
                    empty = group.is_empty();
                },
                Entry::Vacant(_) => {},
            }
            if empty {
                self.groups.remove(&group_id);
            }
            proof {
                assert forall|j: int|
                    #![trigger group_ids@[j]]
                    0 <= j < i + 1 implies {
                    let g = group_ids@[j];
                    &&& self.groups@.contains_key(g) <==> !pre[g].members().remove(id).is_empty()
                    &&& self.groups@.contains_key(g) ==> pre[g].same_but_members(self.groups@[g])
                        && self.groups@[g].members() == pre[g].members().remove(id)
                        && self.groups@[g].wf()
                } by {
                    if j < i {
                        assert(group_ids@[j] != group_ids@[i as int]);
                        assert(before.contains_key(group_ids@[j]) ==> before[group_ids@[j]]
                            == self.groups@[group_ids@[j]]);
                    }
                }
                assert forall|j: int|
                    #![trigger group_ids@[j]]
                    i + 1 <= j < group_ids.len() implies self.groups@.contains_key(group_ids@[j])
                    && self.groups@[group_ids@[j]] == pre[group_ids@[j]] by {
                    assert(group_ids@[j] != group_ids@[i as int]);
                }
            }
            i += 1;
        }
        proof {
            assert forall|g: GroupId|
                #![trigger self.groups@.contains_key(g)]
                #![trigger pre.contains_key(g)]
                {
                    &&& self.groups@.contains_key(g) <==> pre.contains_key(g) && !pre[g].members().remove(
                        id,
                    ).is_empty()
                    &&& self.groups@.contains_key(g) ==> pre[g].same_but_members(self.groups@[g])
                        && self.groups@[g].members() == pre[g].members().remove(id)
                        && self.groups@[g].wf() && self.groups@[g].id == g
                } by {
                if pre.contains_key(g) {
                    assert(group_ids@.to_set().contains(g));
                    assert(group_ids@.contains(g));
                    let j = choose|j: int| 0 <= j < group_ids@.len() && group_ids@[j] == g;
                    assert(group_ids@[j] == g);
                }
            }
        }
        self.clients.remove(&id);
    }

    /// Adds a new group to the state, returning a clone without
    /// sensitive information for logging purposes.
    pub fn add_group(&mut self, params: Parameters) -> (group: Group)
        requires
            old(self).wf(),
        ensures
            final(self).wf(),
            is_random_id(group.id),
            old(self).same_but_group(*final(self), group.id),
            final(self).groups()[group.id].is_new(group.id, params),
            group.wf(),
            group.is_new(group.id, params),
    {
        let group_id = random_id();
        self.insert_group(group_id, params)
    }

    /// Files a new group under `group_id` and returns a copy of it. A group
    /// that was filed under that id before is replaced.
    pub fn insert_group(&mut self, group_id: GroupId, params: Parameters) -> (group: Group)
        requires
            old(self).wf(),
        ensures
            final(self).wf(),
            old(self).same_but_group(*final(self), group_id),
            final(self).groups()[group_id].is_new(group_id, params),
            group.wf(),
            group.is_new(group_id, params),
    {
        let group = Group::new(group_id, params);
        let group_c = group.clone();
        self.groups.insert(group_id, group);
        proof {
            old(self).lemma_wf_but_group(*self, group_id);
        }
        group_c
    }

    /// Joins a client to a group, returning a clone without
    /// sensitive information for logging purposes.
    pub fn join_group(&mut self, group_id: GroupId, client_id: ClientId) -> (r: Result<
        Group,
        StateError,
    >)
        requires
            old(self).wf(),
        ensures
            final(self).wf(),
            match r {
                Ok(group) => {
                    &&& old(self).groups().contains_key(group_id)
                    &&& old(self).groups()[group_id].members().len() < old(
                        self,
                    ).groups()[group_id].params.n()
                    &&& old(self).same_but_group(*final(self), group_id)
                    &&& old(self).groups()[group_id].same_but_members(
                        final(self).groups()[group_id],
                    )
                    &&& final(self).groups()[group_id].members() == old(
                        self,
                    ).groups()[group_id].members().insert(client_id)
                    &&& group.wf()
                    &&& group.is_new(group_id, old(self).groups()[group_id].params)
                },
                Err(e) => {
                    &&& final(self).groups() == old(self).groups()
                    &&& final(self).clients() == old(self).clients()
                    &&& if !old(self).groups().contains_key(group_id) {
                        e == StateError::GroupNotFound(group_id)
                    } else {
                        &&& e == StateError::GroupIsFull(group_id)
                        &&& old(self).groups()[group_id].members().len() == old(
                            self,
                        ).groups()[group_id].params.n()
                    }
                },
            },
    {
        // Validate group exists and is not full
        match self.groups.get(&group_id) {
            None => {
                return Err(StateError::GroupNotFound(group_id));
            },
            Some(group) => {
                if group.is_full() {
                    return Err(StateError::GroupIsFull(group_id));
                }
            },
        }
        // Join group
        assert(old(self).groups().contains_key(group_id));
        let r = match self.groups.entry(group_id) {
            Entry::Occupied(entry) => {
                let group = entry.into_mut();
                match group.add_client(client_id) {
                    Ok(()) => Ok(group.clone()),
                    Err(_) => Err(StateError::GroupIsFull(group_id)),
                }
            },
            Entry::Vacant(_) => Err(StateError::GroupNotFound(group_id)),
        };
        proof {
            old(self).lemma_wf_but_group(*self, group_id);
        }
        r
    }

    /// Adds a new session, returning a clone without sensitive information
    /// for logging purposes.
    pub fn add_session(&mut self, group_id: GroupId, kind: SessionKind, value: SessionValue) -> (r:
        Result<(Group, Session), StateError>)
        requires
            old(self).wf(),
        ensures
            final(self).wf(),
            match r {
                Ok((group, session)) => {
                    &&& old(self).groups().contains_key(group_id)
                    &&& is_random_id(session.id)
                    &&& old(self).same_but_group(*final(self), group_id)
                    &&& old(self).groups()[group_id].same_but_session(
                        final(self).groups()[group_id],
                        session.id,
                    )
                    &&& final(self).groups()[group_id].sessions@[session.id].is_new(
                        session.id,
                        kind,
                        value,
                    )
                    &&& group.wf()
                    &&& group.is_new(group_id, old(self).groups()[group_id].params)
                    &&& session.wf()
                    &&& session.is_new(session.id, kind, value)
                },
                Err(e) => {
                    &&& final(self).groups() == old(self).groups()
                    &&& final(self).clients() == old(self).clients()
                    &&& !old(self).groups().contains_key(group_id)
                    &&& e == StateError::GroupNotFound(group_id)
                },
            },
    {
        // Validate group exists
        if !self.groups.contains_key(&group_id) {
            return Err(StateError::GroupNotFound(group_id));
        }
        // Add session
        assert(old(self).groups().contains_key(group_id));
        let r = match self.groups.entry(group_id) {
            Entry::Occupied(entry) => {
                let group = entry.into_mut();
                let session = group.add_session(kind, value);
                Ok((group.clone(), session))
            },
            Entry::Vacant(_) => Err(StateError::GroupNotFound(group_id)),
        };
        proof {
            old(self).lemma_wf_but_group(*self, group_id);
        }
        r
    }

    /// Tests whether a signup of `client_id` into the session can be served.
    pub fn can_signup(&self, client_id: ClientId, group_id: GroupId, session_id: SessionId) -> (ok:
        bool)
        requires
            self.wf(),
        ensures
            ok == self.has_room_for(client_id, group_id, session_id),
    {
        match self.session_ref(group_id, session_id) {
            Err(_) => true,
            Ok(session) => {
                assert(self.groups().contains_key(group_id));
                session.is_client_in_session(&client_id) || session.get_number_of_clients() < 0xffff
            },
        }
    }

    /// Looks a session up: the session, or the error that says what is
    /// missing.
    fn session_ref(&self, group_id: GroupId, session_id: SessionId) -> (r: Result<
        &Session,
        StateError,
    >)
        ensures
            match r {
                Ok(session) => self.find_session(group_id, session_id) == Ok::<
                    Session,
                    StateError,
                >(*session),
                Err(e) => self.find_session(group_id, session_id) == Err::<Session, StateError>(e),
            },
    {
        match self.groups.get(&group_id) {
            None => Err(StateError::GroupNotFound(group_id)),
            Some(group) => match group.get_session(&session_id) {
                None => Err(StateError::SessionNotFound(session_id, group_id)),
                Some(session) => Ok(session),
            },
        }
    }

    /// Hands out a session that is known to exist, to be changed.
    fn session_mut(&mut self, group_id: GroupId, session_id: SessionId) -> (r: Option<
        &mut Session,
    >)
        requires
            old(self).find_session(group_id, session_id) is Ok,
        ensures
            match r {
                Some(session) => {
                    &&& *session == old(self).groups()[group_id].sessions@[session_id]
                    &&& old(self).same_but_session(*final(self), group_id, session_id)
                    &&& final(self).groups()[group_id].sessions@[session_id] == *final(session)
                },
                None => false,
            },
    {
        match self.groups.entry(group_id) {
            Entry::Occupied(entry) => {
                let group = entry.into_mut();
                group.get_session_mut(&session_id)
            },
            Entry::Vacant(_) => None,
        }
    }

    /// Registers a client to a given session and returns
    /// a session clone, session party number and a boolean
    /// indicating if the threshold has been reached.
    pub fn signup_session(
        &mut self,
        client_id: ClientId,
        group_id: GroupId,
        session_id: SessionId,
    ) -> (r: Result<(Group, Session, SessionPartyNumber, bool), StateError>)
        requires
            old(self).wf(),
            old(self).has_room_for(client_id, group_id, session_id),
        ensures
            final(self).wf(),
            match r {
                Ok((group, session, party_number, threshold)) => {
                    let before = old(self).groups()[group_id].sessions@[session_id];
                    let after = final(self).groups()[group_id].sessions@[session_id];
                    &&& old(self).same_but_session(*final(self), group_id, session_id)
                    &&& before.signup_post(client_id, party_number, after)
                    &&& threshold == final(self).groups()[group_id].params.quorum(
                        after.kind,
                        after.signups().len(),
                    )
                    &&& group.wf()
                    &&& group.is_new(group_id, old(self).groups()[group_id].params)
                    &&& session.wf()
                    &&& session.is_new(session_id, after.kind, after.value)
                },
                Err(e) => {
                    &&& final(self).groups() == old(self).groups()
                    &&& final(self).clients() == old(self).clients()
                    &&& old(self).find_session(group_id, session_id) == Err::<Session, StateError>(
                        e,
                    )
                },
            },
    {
        // Validate group and session exist
        match self.session_ref(group_id, session_id) {
            Err(e) => {
                return Err(e);
            },
            Ok(_) => {},
        }
        // Signup session
        let (party_number, parties, session_c) = match self.session_mut(group_id, session_id) {
            Some(session) => {
                let party_number = session.signup(client_id);
                let parties = session.get_number_of_clients();
                (party_number, parties, session.clone())
            },
            None => {
                return Err(StateError::SessionNotFound(session_id, group_id));
            },
        };
        proof {
            old(self).lemma_wf_but_session(*self, group_id, session_id);
        }
        match self.groups.get(&group_id) {
            Some(group) => {
                let threshold = group.params.threshold_reached(session_c.kind, parties);
                Ok((group.clone(), session_c, party_number, threshold))
            },
            None => Err(StateError::GroupNotFound(group_id)),
        }
    }

    /// Logins a client with a given party number to a session and returns
    /// the session and a boolean indicating if the threshold has been reached.
    pub fn login_session(
        &mut self,
        client_id: ClientId,
        group_id: GroupId,
        session_id: SessionId,
        party_number: SessionPartyNumber,
    ) -> (r: Result<(Group, Session, bool), LoginError>)
        requires
            old(self).wf(),
            party_number >= 1,
        ensures
            final(self).wf(),
            match r {
                Ok((group, session, threshold)) => {
                    let before = old(self).groups()[group_id].sessions@[session_id];
                    let after = final(self).groups()[group_id].sessions@[session_id];
                    &&& old(self).same_but_session(*final(self), group_id, session_id)
                    &&& before.login_post(client_id, party_number, Ok(()), after)
                    &&& threshold == final(self).groups()[group_id].params.quorum(
                        after.kind,
                        after.signups().len(),
                    )
                    &&& group.wf()
                    &&& group.is_new(group_id, old(self).groups()[group_id].params)
                    &&& session.wf()
                    &&& session.is_new(session_id, after.kind, after.value)
                },
                Err(LoginError::State(e)) => {
                    &&& final(self).groups() == old(self).groups()
                    &&& final(self).clients() == old(self).clients()
                    &&& old(self).find_session(group_id, session_id) == Err::<Session, StateError>(
                        e,
                    )
                },
                Err(LoginError::Session(e)) => {
                    let before = old(self).groups()[group_id].sessions@[session_id];
                    let after = final(self).groups()[group_id].sessions@[session_id];
                    &&& old(self).same_but_session(*final(self), group_id, session_id)
                    &&& before.login_post(client_id, party_number, Err(e), after)
                },
            },
    {
        // Validate group and session exist
        match self.session_ref(group_id, session_id) {
            Err(e) => {
                return Err(LoginError::State(e));
            },
            Ok(_) => {},
        }
        // Login session
        let (outcome, parties, session_c) = match self.session_mut(group_id, session_id) {
            Some(session) => {
                let outcome = session.login(client_id, party_number);
                let parties = session.get_number_of_clients();
                (outcome, parties, session.clone())
            },
            None => {
                return Err(LoginError::State(StateError::SessionNotFound(session_id, group_id)));
            },
        };
        proof {
            old(self).lemma_wf_but_session(*self, group_id, session_id);
        }
        match outcome {
            Err(e) => Err(LoginError::Session(e)),
            Ok(()) => match self.groups.get(&group_id) {
                Some(group) => {
                    let threshold = group.params.threshold_reached(session_c.kind, parties);
                    Ok((group.clone(), session_c, threshold))
                },
                None => Err(LoginError::State(StateError::GroupNotFound(group_id))),
            },
        }
    }

    /// Returns client ids associated with a given group, if it exists: each
    /// member once, in no particular order.
    pub fn get_client_ids_from_group(&self, group_id: &GroupId) -> (r: Result<
        Vec<ClientId>,
        StateError,
    >)
        ensures
            match r {
                Ok(ids) => {
                    &&& self.groups().contains_key(*group_id)
                    &&& ids@.to_set() == self.groups()[*group_id].members()
                    &&& ids@.no_duplicates()
                },
                Err(e) => !self.groups().contains_key(*group_id) && e == StateError::GroupNotFound(
                    *group_id,
                ),
            },
    {
        let group = match self.groups.get(group_id) {
            Some(group) => group,
            None => {
                return Err(StateError::GroupNotFound(*group_id));
            },
        };
        let clients = group.clients();
        let mut ids: Vec<ClientId> = Vec::new();
        let ghost all = spec_hash_keys_iter(clients).remaining();
        for client_id in iter: clients.iter()
            invariant
                iter.seq() == all,
                all == spec_hash_keys_iter(clients).remaining(),
                ids@.len() == iter.index(),
                forall|j: int| 0 <= j < ids@.len() ==> ids@[j] == *all[j],
        {
            ids.push(*client_id);
        }
        proof {
            assert(ids@ =~= all.unref());
            assert forall|i: int, j: int|
                0 <= i < ids@.len() && 0 <= j < ids@.len() && i != j implies ids@[i] != ids@[j] by {
                assert(all[i] != all[j]);
            }
        }
        Ok(ids)
    }

    /// Returns client ids associated with a given session, if it exists, by
    /// ascending party number.
    pub fn get_client_ids_from_session(&self, group_id: &GroupId, session_id: &SessionId) -> (r:
        Result<Vec<ClientId>, StateError>)
        requires
            self.wf(),
        ensures
            match r {
                Ok(ids) => self.find_session(*group_id, *session_id) matches Ok(session) && ids@
                    == session.client_ids(),
                Err(e) => self.find_session(*group_id, *session_id) == Err::<Session, StateError>(
                    e,
                ),
            },
    {
        match self.session_ref(*group_id, *session_id) {
            Err(e) => Err(e),
            Ok(session) => {
                assert(self.groups().contains_key(*group_id));
                Ok(session.get_all_client_ids())
            },
        }
    }

    /// Returns client id associated with a given session and party number.
    pub fn get_client_id_from_party_number(
        &self,
        group_id: GroupId,
        session_id: SessionId,
        party_number: SessionPartyNumber,
    ) -> (r: Result<ClientId, StateError>)
        ensures
            match self.find_session(group_id, session_id) {
                Ok(session) => if session.signups().contains_key(party_number) {
                    r == Ok::<ClientId, StateError>(session.signups()[party_number])
                } else {
                    r == Err::<ClientId, StateError>(StateError::PartyNotFound(party_number))
                },
                Err(e) => r == Err::<ClientId, StateError>(e),
            },
    {
        // Validate group, session and party number exist.
        match self.session_ref(group_id, session_id) {
            Err(e) => Err(e),
            Ok(session) => match session.get_client_id(party_number) {
                Some(client_id) => Ok(client_id),
                None => Err(StateError::PartyNotFound(party_number)),
            },
        }
    }

    /// Returns the party number of a given client id.
    pub fn get_party_number_from_client_id(
        &self,
        group_id: GroupId,
        session_id: SessionId,
        client_id: ClientId,
    ) -> (r: Result<SessionPartyNumber, StateError>)
        requires
            self.wf(),
        ensures
            match self.find_session(group_id, session_id) {
                Ok(session) => match r {
                    Ok(party_number) => session.signups().contains_key(party_number)
                        && session.signups()[party_number] == client_id,
                    Err(e) => !session.has_client(client_id) && e == StateError::ClientNotFound(
                        client_id,
                    ),
                },
                Err(e) => r == Err::<SessionPartyNumber, StateError>(e),
            },
    {
        match self.session_ref(group_id, session_id) {
            Err(e) => Err(e),
            Ok(session) => {
                assert(self.groups().contains_key(group_id));
                match session.get_party_number(&client_id) {
                    Some(party_number) => Ok(party_number),
                    None => Err(StateError::ClientNotFound(client_id)),
                }
            },
        }
    }

    /// Helper function that validates if group and session are valid.
    pub fn validate_group_and_session(&self, group_id: GroupId, session_id: SessionId) -> (r:
        Result<(), StateError>)
        ensures
            match r {
                Ok(()) => self.find_session(group_id, session_id) is Ok,
                Err(e) => self.find_session(group_id, session_id) == Err::<Session, StateError>(e),
            },
    {
        match self.session_ref(group_id, session_id) {
            Err(e) => Err(e),
            Ok(_) => Ok(()),
        }
    }

    /// A state that is changed in one session only is well formed where
    /// that session is.
    proof fn lemma_wf_but_session(&self, post: State, group_id: GroupId, session_id: SessionId)
        requires
            self.wf(),
            self.same_but_session(post, group_id, session_id),
            post.groups()[group_id].sessions@[session_id].wf(),
            post.groups()[group_id].sessions@[session_id].id == session_id,
        ensures
            post.wf(),
    {
        let pre_group = self.groups()[group_id];
        let post_group = post.groups()[group_id];
        assert(self.groups().contains_key(group_id));
        assert forall|s: SessionId| #[trigger] post_group.sessions@.contains_key(s) implies post_group.sessions@[s].wf()
            && post_group.sessions@[s].id == s by {
            if s != session_id {
                assert(pre_group.sessions@.contains_key(s));
            }
        }
        self.lemma_wf_but_group(post, group_id);
    }

    /// Two changes of one group in a row are one change of that group.
    pub proof fn lemma_same_but_group_twice(&self, mid: State, post: State, group_id: GroupId)
        requires
            self.same_but_group(mid, group_id),
            mid.same_but_group(post, group_id),
        ensures
            self.same_but_group(post, group_id),
    {
        assert(post.groups() =~= self.groups().insert(group_id, post.groups()[group_id]));
    }

    /// A state that is changed in one group only is well formed where that
    /// group is.
    proof fn lemma_wf_but_group(&self, post: State, group_id: GroupId)
        requires
            self.wf(),
            self.same_but_group(post, group_id),
            post.groups()[group_id].wf(),
            post.groups()[group_id].id == group_id,
        ensures
            post.wf(),
    {
        assert forall|g: GroupId| #[trigger] post.groups().contains_key(g) implies post.groups()[g].wf()
            && post.groups()[g].id == g by {
            if g != group_id {
                assert(self.groups().contains_key(g));
            }
        }
    }
}

/// No group of a well-formed state has more members than its parameters
/// allow.
pub proof fn lemma_groups_are_bounded(state: State, group_id: GroupId)
    requires
        state.wf(),
        state.groups().contains_key(group_id),
    ensures
        state.groups()[group_id].members().len() <= state.groups()[group_id].params.n(),
{
}

/// In every session of a well-formed state the occupied party numbers are
/// strictly increasing, they are the parties that have signed up, and no
/// client has signed up as two parties.
pub proof fn lemma_sessions_are_consistent(state: State, group_id: GroupId, session_id: SessionId)
    requires
        state.wf(),
        state.find_session(group_id, session_id) is Ok,
    ensures
        ({
            let session = state.groups()[group_id].sessions@[session_id];
            &&& self::session::strictly_increasing(session.occupied())
            &&& session.occupied().to_set() == session.signups().dom()
            &&& forall|p: SessionPartyNumber, q: SessionPartyNumber|
                #![trigger session.signups()[p], session.signups()[q]]
                session.signups().contains_key(p) && session.signups().contains_key(q)
                    && session.signups()[p] == session.signups()[q] ==> p == q
        }),
{
    let session = state.groups()[group_id].sessions@[session_id];
    assert(state.groups()[group_id].wf());
    assert(state.groups()[group_id].sessions@.contains_key(session_id));
    assert(session.occupied().to_set() =~= session.signups().dom());
}

/// A disconnect leaves no trace in the groups: after it no group has the
/// client among its members, and a group of which it was the only member is
/// gone.
pub proof fn lemma_dropped_client_is_gone(
    pre: Map<GroupId, Group>,
    post: Map<GroupId, Group>,
    client_id: ClientId,
)
    requires
        dropped_from(pre, post, client_id),
    ensures
        forall|group_id: GroupId| #[trigger]
            post.contains_key(group_id) ==> !post[group_id].members().contains(client_id),
        forall|group_id: GroupId| #[trigger]
            pre.contains_key(group_id) && pre[group_id].members() == set![client_id]
                ==> !post.contains_key(group_id),
{
    assert forall|group_id: GroupId| #[trigger]
        pre.contains_key(group_id) && pre[group_id].members() == set![client_id]
        implies !post.contains_key(group_id) by {
        assert(set![client_id].remove(client_id) =~= Set::<ClientId>::empty());
    }
}

impl Default for State {
    fn default() -> (state: Self)
        ensures
            state.wf(),
            state.clients() == Map::<ClientId, UnboundedSender<String>>::empty(),
            state.groups() == Map::<GroupId, Group>::empty(),
    {
        Self::new()
    }
}

} // verus!
