//! # Group service
//!
//! This module contains the group service that handles incoming requests
//! for group management.

use super::{Error, Request, Response, ServiceResponse};
use crate::state::group::{Group, GroupId};
use crate::state::parameters::Parameters;
use crate::state::{ClientId, State};
use crate::text::same_text;
use vstd::prelude::*;

verus! {

/// Prefix for group routes.
pub const ROUTE_PREFIX: &'static str = "group";

/// Available group methods.
#[derive(Debug, Clone, Copy, PartialEq, Eq, Structural)]
pub enum GroupMethod {
    GroupCreate,
    GroupJoin,
}

impl GroupMethod {
    /// The name of the method on the wire.
    pub open spec fn name(self) -> Seq<char> {
        match self {
            GroupMethod::GroupCreate => "group_create"@,
            GroupMethod::GroupJoin => "group_join"@,
        }
    }

    /// The method that a name stands for, if any.
    pub open spec fn named(name: Seq<char>) -> Option<GroupMethod> {
        if name == "group_create"@ {
            Some(GroupMethod::GroupCreate)
        } else if name == "group_join"@ {
            Some(GroupMethod::GroupJoin)
        } else {
            None
        }
    }

    /// Reads a method from its name.
    pub fn from_str(s: &str) -> (method: Option<GroupMethod>)
        ensures
            method == Self::named(s@),
    {
        if same_text(s, "group_create") {
            Some(GroupMethod::GroupCreate)
        } else if same_text(s, "group_join") {
            Some(GroupMethod::GroupJoin)
        } else {
            None
        }
    }

    /// Writes the name of the method.
    pub fn to_string(&self) -> (s: String)
        ensures
            s@ == self.name(),
    {
        match self {
            GroupMethod::GroupCreate => "group_create".to_owned(),
            GroupMethod::GroupJoin => "group_join".to_owned(),
        }
    }
}

/// Group create request.
#[derive(Debug)]
pub struct GroupCreateRequest {
    pub parameters: Parameters,
}

/// Group create response.
#[derive(Debug)]
pub struct GroupCreateResponse {
    pub group: Group,
}

/// Group join request.
#[derive(Debug)]
pub struct GroupJoinRequest {
    pub group_id: GroupId,
}

/// Group join response.
#[derive(Debug)]
pub struct GroupJoinResponse {
    pub group: Group,
}

/// What a `group_create` request of `client_id` makes of the state `pre`:
/// a new group under a fresh id `group_id`, with the client as its only
/// member.
pub open spec fn group_created(
    pre: State,
    post: State,
    group_id: GroupId,
    params: Parameters,
    client_id: ClientId,
) -> bool {
    &&& pre.same_but_group(post, group_id)
    &&& post.groups()[group_id].id == group_id
    &&& post.groups()[group_id].params == params
    &&& post.groups()[group_id].members() == set![client_id]
    &&& post.groups()[group_id].sessions@ == Map::<
        crate::state::session::SessionId,
        crate::state::session::Session,
    >::empty()
}

/// Group service that handles incoming requests and maps
/// them to the corresponding methods.
#[derive(Debug, Clone, Copy)]
pub struct GroupService;

impl GroupService {
    /// Handles the requests of the group methods. A request of another
    /// method is answered with `MethodNotFound`.
    pub fn handle(&self, req: Request, state: &mut State, client_id: ClientId) -> (r:
        ServiceResponse)
        requires
            old(state).wf(),
        ensures
            final(state).wf(),
            match req {
                Request::GroupCreate(create) => group_create_post(
                    create,
                    *old(state),
                    *final(state),
                    client_id,
                    r,
                ),
                Request::GroupJoin(join) => group_join_post(
                    join,
                    *old(state),
                    *final(state),
                    client_id,
                    r,
                ),
                _ => {
                    &&& *final(state) == *old(state)
                    &&& r matches Err(Error::MethodNotFound { name })
                    &&& name@ == req.method().name()
                },
            },
    {
        match req {
            Request::GroupCreate(create) => self.group_create(&create, state, client_id),
            Request::GroupJoin(join) => self.group_join(&join, state, client_id),
            _ => Err(Error::MethodNotFound { name: req.method().to_string() }),
        }
    }

    fn group_create(&self, req: &GroupCreateRequest, state: &mut State, client_id: ClientId) -> (r:
        ServiceResponse)
        requires
            old(state).wf(),
        ensures
            final(state).wf(),
            group_create_post(*req, *old(state), *final(state), client_id, r),
    {
        match req.parameters.validate() {
            Ok(()) => {},
            Err(e) => {
                return Err(Error::InvalidParams { data: e.to_string() });
            },
        }
        let group = state.add_group(req.parameters);
        let ghost mid = *state;
        assert(Set::<ClientId>::empty().len() == 0);
        // A group that was just created has room for its first member.
        match state.join_group(group.id, client_id) {
            Ok(_) => {
                proof {
                    assert(state.groups()[group.id].members() =~= set![client_id]);
                    old(state).lemma_same_but_group_twice(mid, *state, group.id);
                }
                Ok(Some(Response::GroupCreate(GroupCreateResponse { group })))
            },
            Err(e) => Err(Error::InvalidParams { data: e.to_string() }),
        }
    }

    fn group_join(&self, req: &GroupJoinRequest, state: &mut State, client_id: ClientId) -> (r:
        ServiceResponse)
        requires
            old(state).wf(),
        ensures
            final(state).wf(),
            group_join_post(*req, *old(state), *final(state), client_id, r),
    {
        match state.join_group(req.group_id, client_id) {
            Ok(group) => Ok(Some(Response::GroupJoin(GroupJoinResponse { group }))),
            Err(e) => Err(Error::InvalidParams { data: e.to_string() }),
        }
    }
}

/// What `group_create` owes: with valid parameters a new group with the
/// caller as its only member, and a response that shows its id and its
/// parameters; with others `InvalidParams` with the text of what is wrong
/// with them, and no change.
pub open spec fn group_create_post(
    req: GroupCreateRequest,
    pre: State,
    post: State,
    client_id: ClientId,
    r: ServiceResponse,
) -> bool {
    match Parameters::check(req.parameters.n(), req.parameters.t()) {
        Ok(()) => {
            &&& r matches Ok(Some(Response::GroupCreate(response)))
            &&& crate::id::is_random_id(response.group.id)
            &&& group_created(pre, post, response.group.id, req.parameters, client_id)
            &&& response.group.wf()
            &&& response.group.is_new(response.group.id, req.parameters)
        },
        Err(e) => {
            &&& post == pre
            &&& r matches Err(Error::InvalidParams { data })
            &&& data@ == e.message()
        },
    }
}

/// What `group_join` owes: the caller becomes a member of the group and the
/// response shows the group's id and parameters, unless the group is not
/// there or is full, which gives `InvalidParams` with the text of that
/// error, and no change.
pub open spec fn group_join_post(
    req: GroupJoinRequest,
    pre: State,
    post: State,
    client_id: ClientId,
    r: ServiceResponse,
) -> bool {
    if !pre.groups().contains_key(req.group_id) {
        &&& post.groups() == pre.groups()
        &&& post.clients() == pre.clients()
        &&& r matches Err(Error::InvalidParams { data })
        &&& data@ == crate::state::StateError::GroupNotFound(req.group_id).message()
    } else if pre.groups()[req.group_id].members().len() >= pre.groups()[req.group_id].params.n() {
        &&& post.groups() == pre.groups()
        &&& post.clients() == pre.clients()
        &&& r matches Err(Error::InvalidParams { data })
        &&& data@ == crate::state::StateError::GroupIsFull(req.group_id).message()
    } else {
        &&& r matches Ok(Some(Response::GroupJoin(response)))
        &&& pre.same_but_group(post, req.group_id)
        &&& pre.groups()[req.group_id].same_but_members(post.groups()[req.group_id])
        &&& post.groups()[req.group_id].members() == pre.groups()[req.group_id].members().insert(
            client_id,
        )
        &&& response.group.wf()
        &&& response.group.is_new(req.group_id, pre.groups()[req.group_id].params)
    }
}

} // verus!
