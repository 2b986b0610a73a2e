//! # Session service
//!
//! This module contains the session service that handles incoming requests
//! for session management and for the messages between the parties of a
//! session.

use super::notification::{Message, Notification};
use super::{Error, Request, Response, ServiceResponse};
use crate::state::group::{Group, GroupId};
use crate::state::parameters::Parameters;
use crate::state::session::{
    Session, SessionError, SessionId, SessionKind, SessionPartyNumber, SessionValue,
};
use crate::state::{ClientId, LoginError, State};
use crate::text::same_text;
use serde_json::Value;
use vstd::prelude::*;

verus! {

/// Prefix for session routes.
pub const ROUTE_PREFIX: &'static str = "session";

/// Available session methods.
#[derive(Debug, Clone, Copy, PartialEq, Eq, Structural)]
pub enum SessionMethod {
    SessionCreate,
    SessionSignup,
    SessionLogin,
    SessionMessage,
}

impl SessionMethod {
    /// The name of the method on the wire.
    pub open spec fn name(self) -> Seq<char> {
        match self {
            SessionMethod::SessionCreate => "session_create"@,
            SessionMethod::SessionSignup => "session_signup"@,
            SessionMethod::SessionLogin => "session_login"@,
            SessionMethod::SessionMessage => "session_message"@,
        }
    }

    /// The method that a name stands for, if any.
    pub open spec fn named(name: Seq<char>) -> Option<SessionMethod> {
        if name == "session_create"@ {
            Some(SessionMethod::SessionCreate)
        } else if name == "session_signup"@ {
            Some(SessionMethod::SessionSignup)
        } else if name == "session_login"@ {
            Some(SessionMethod::SessionLogin)
        } else if name == "session_message"@ {
            Some(SessionMethod::SessionMessage)
        } else {
            None
        }
    }

    /// Reads a method from its name.
    pub fn from_str(s: &str) -> (method: Option<SessionMethod>)
        ensures
            method == Self::named(s@),
    {
        if same_text(s, "session_create") {
            Some(SessionMethod::SessionCreate)
        } else if same_text(s, "session_signup") {
            Some(SessionMethod::SessionSignup)
        } else if same_text(s, "session_login") {
            Some(SessionMethod::SessionLogin)
        } else if same_text(s, "session_message") {
            Some(SessionMethod::SessionMessage)
        } else {
            None
        }
    }

    /// Writes the name of the method.
    pub fn to_string(&self) -> (s: String)
        ensures
            s@ == self.name(),
    {
        match self {
            SessionMethod::SessionCreate => "session_create".to_owned(),
            SessionMethod::SessionSignup => "session_signup".to_owned(),
            SessionMethod::SessionLogin => "session_login".to_owned(),
            SessionMethod::SessionMessage => "session_message".to_owned(),
        }
    }
}

/// The events that the session service notifies the clients of.
#[derive(Debug, Clone, Copy, PartialEq, Eq, Structural)]
pub enum SessionEvent {
    SessionCreated,
    SessionReady,
    SessionMessage,
}

impl SessionEvent {
    /// The name of the event on the wire.
    pub open spec fn name(self) -> Seq<char> {
        match self {
            SessionEvent::SessionCreated => "session_created"@,
            SessionEvent::SessionReady => "session_ready"@,
            SessionEvent::SessionMessage => "session_message"@,
        }
    }

    /// The event that a name stands for, if any.
    pub open spec fn named(name: Seq<char>) -> Option<SessionEvent> {
        if name == "session_created"@ {
            Some(SessionEvent::SessionCreated)
        } else if name == "session_ready"@ {
            Some(SessionEvent::SessionReady)
        } else if name == "session_message"@ {
            Some(SessionEvent::SessionMessage)
        } else {
            None
        }
    }

    /// Reads an event from its name.
    pub fn from_str(s: &str) -> (event: Option<SessionEvent>)
        ensures
            event == Self::named(s@),
    {
        if same_text(s, "session_created") {
            Some(SessionEvent::SessionCreated)
        } else if same_text(s, "session_ready") {
            Some(SessionEvent::SessionReady)
        } else if same_text(s, "session_message") {
            Some(SessionEvent::SessionMessage)
        } else {
            None
        }
    }

    /// Writes the name of the event.
    pub fn to_string(&self) -> (s: String)
        ensures
            s@ == self.name(),
    {
        match self {
            SessionEvent::SessionCreated => "session_created".to_owned(),
            SessionEvent::SessionReady => "session_ready".to_owned(),
            SessionEvent::SessionMessage => "session_message".to_owned(),
        }
    }
}

#[derive(Debug)]
pub struct SessionCreateRequest {
    pub group_id: GroupId,
    pub kind: SessionKind,
    pub value: SessionValue,
}

#[derive(Debug)]
pub struct SessionCreateResponse {
    pub session: Session,
}

#[derive(Debug)]
pub struct SessionCreatedNotification {
    pub group: Group,
    pub session: Session,
}

#[derive(Debug)]
pub struct SessionSignupRequest {
    pub group_id: GroupId,
    pub session_id: SessionId,
}

#[derive(Debug)]
pub struct SessionSignupResponse {
    pub session: Session,
    pub party_number: SessionPartyNumber,
}

#[derive(Debug)]
pub struct SessionLoginRequest {
    pub group_id: GroupId,
    pub session_id: SessionId,
    pub party_number: SessionPartyNumber,
}

#[derive(Debug)]
pub struct SessionLoginResponse {
    pub session: Session,
}

#[derive(Debug)]
pub struct SessionReadyNotification {
    pub group: Group,
    pub session: Session,
}

#[derive(Debug)]
pub struct SessionMessageRequest {
    pub group_id: GroupId,
    pub session_id: SessionId,
    pub receiver: Option<SessionPartyNumber>,
    pub message: Value,
}

#[derive(Debug)]
pub struct SessionMessageNotification {
    pub group_id: GroupId,
    pub session_id: SessionId,
    pub sender: SessionPartyNumber,
    pub message: Value,
}

/// Holds of the notification that tells a group of a session: it goes to
/// the group but for the clients of `filter`, under the name of `event`, and
/// shows the id and the parameters of the group and the id, the kind and
/// the value of the session, and nothing else of either.
pub open spec fn announces(
    notification: Notification,
    event: SessionEvent,
    filter: Seq<ClientId>,
    group_id: GroupId,
    params: Parameters,
    session_id: SessionId,
    kind: SessionKind,
    value: SessionValue,
) -> bool {
    &&& notification matches Notification::Group { group_id: to, filter: but, method, message }
    &&& to == group_id
    &&& but@ == filter
    &&& method@ == event.name()
    &&& match event {
        SessionEvent::SessionCreated => {
            &&& message matches Message::SessionCreated(shown)
            &&& shown.group.wf()
            &&& shown.group.is_new(group_id, params)
            &&& shown.session.wf()
            &&& shown.session.is_new(session_id, kind, value)
        },
        SessionEvent::SessionReady => {
            &&& message matches Message::SessionReady(shown)
            &&& shown.group.wf()
            &&& shown.group.is_new(group_id, params)
            &&& shown.session.wf()
            &&& shown.session.is_new(session_id, kind, value)
        },
        SessionEvent::SessionMessage => false,
    }
}

/// What follows a signup or a login that was served: where the session
/// then has the parties that its kind asks for, the whole group is told
/// that it is ready, and else nobody is told anything.
pub open spec fn readiness_told(
    post: State,
    group_id: GroupId,
    session_id: SessionId,
    before: Seq<Notification>,
    after: Seq<Notification>,
) -> bool {
    let group = post.groups()[group_id];
    let session = group.sessions@[session_id];
    if group.params.quorum(session.kind, session.signups().len()) {
        &&& after.len() == before.len() + 1
        &&& after.drop_last() == before
        &&& announces(
            after.last(),
            SessionEvent::SessionReady,
            Seq::<ClientId>::empty(),
            group_id,
            group.params,
            session_id,
            session.kind,
            session.value,
        )
    } else {
        after == before
    }
}

/// What `session_create` owes: a new session in the group, a response that
/// shows it, and a notification of it for the group but for the caller.
/// Where the group is not there: `InvalidParams` with the text of that
/// error, and no change.
pub open spec fn session_create_post(
    req: SessionCreateRequest,
    pre: State,
    post: State,
    before: Seq<Notification>,
    after: Seq<Notification>,
    client_id: ClientId,
    r: ServiceResponse,
) -> bool {
    if !pre.groups().contains_key(req.group_id) {
        &&& post.groups() == pre.groups()
        &&& post.clients() == pre.clients()
        &&& after == before
        &&& r matches Err(Error::InvalidParams { data })
        &&& data@ == crate::state::StateError::GroupNotFound(req.group_id).message()
    } else {
        &&& r matches Ok(Some(Response::SessionCreate(response)))
        &&& crate::id::is_random_id(response.session.id)
        &&& pre.same_but_group(post, req.group_id)
        &&& pre.groups()[req.group_id].same_but_session(
            post.groups()[req.group_id],
            response.session.id,
        )
        &&& post.groups()[req.group_id].sessions@[response.session.id].is_new(
            response.session.id,
            req.kind,
            req.value,
        )
        &&& response.session.wf()
        &&& response.session.is_new(response.session.id, req.kind, req.value)
        &&& after.len() == before.len() + 1
        &&& after.drop_last() == before
        &&& announces(
            after.last(),
            SessionEvent::SessionCreated,
            seq![client_id],
            req.group_id,
            pre.groups()[req.group_id].params,
            response.session.id,
            req.kind,
            req.value,
        )
    }
}

/// What `session_signup` owes: the caller is signed up, the response shows
/// the session and the caller's party number, and the group is told where
/// the session is ready. Where the group or the session is not there:
/// `InvalidParams` with the text of that error, and no change.
pub open spec fn session_signup_post(
    req: SessionSignupRequest,
    pre: State,
    post: State,
    before: Seq<Notification>,
    after: Seq<Notification>,
    client_id: ClientId,
    r: ServiceResponse,
) -> bool {
    match pre.find_session(req.group_id, req.session_id) {
        Err(e) => {
            &&& post.groups() == pre.groups()
            &&& post.clients() == pre.clients()
            &&& after == before
            &&& r matches Err(Error::InvalidParams { data })
            &&& data@ == e.message()
        },
        Ok(session) => {
            let changed = post.groups()[req.group_id].sessions@[req.session_id];
            &&& r matches Ok(Some(Response::SessionSignup(response)))
            &&& pre.same_but_session(post, req.group_id, req.session_id)
            &&& session.signup_post(client_id, response.party_number, changed)
            &&& response.session.wf()
            &&& response.session.is_new(req.session_id, changed.kind, changed.value)
            &&& readiness_told(post, req.group_id, req.session_id, before, after)
        },
    }
}

/// What `session_login` owes: the caller is logged in under its party
/// number, the response shows the session, and the group is told where the
/// session is ready. Where the group or the session is not there, or the
/// party number belongs to another client: `InvalidParams` with the text of
/// that error, and nobody is told anything.
pub open spec fn session_login_post(
    req: SessionLoginRequest,
    pre: State,
    post: State,
    before: Seq<Notification>,
    after: Seq<Notification>,
    client_id: ClientId,
    r: ServiceResponse,
) -> bool {
    match pre.find_session(req.group_id, req.session_id) {
        Err(e) => {
            &&& post.groups() == pre.groups()
            &&& post.clients() == pre.clients()
            &&& after == before
            &&& r matches Err(Error::InvalidParams { data })
            &&& data@ == e.message()
        },
        Ok(session) => {
            let changed = post.groups()[req.group_id].sessions@[req.session_id];
            &&& pre.same_but_session(post, req.group_id, req.session_id)
            &&& if !session.has_client(client_id) && session.signups().contains_key(
                req.party_number,
            ) {
                let refusal = SessionError::PartyNumberAlreadyOccupied(req.party_number);
                &&& session.login_post(client_id, req.party_number, Err(refusal), changed)
                &&& after == before
                &&& r matches Err(Error::InvalidParams { data })
                &&& data@ == refusal.message()
            } else {
                &&& r matches Ok(Some(Response::SessionLogin(response)))
                &&& session.login_post(client_id, req.party_number, Ok(()), changed)
                &&& response.session.wf()
                &&& response.session.is_new(req.session_id, changed.kind, changed.value)
                &&& readiness_told(post, req.group_id, req.session_id, before, after)
            }
        },
    }
}

/// Holds of the message that `sender` sends with a `session_message`
/// request.
pub open spec fn carries(
    message: Message,
    req: SessionMessageRequest,
    sender: SessionPartyNumber,
) -> bool {
    message == Message::SessionMessage(
        SessionMessageNotification {
            group_id: req.group_id,
            session_id: req.session_id,
            sender,
            message: req.message,
        },
    )
}

/// Holds of the one notification that a `session_message` request of the
/// party `sender` of `session` leaves: a relay to the client of the
/// receiver where the request names one, and else a notification of the
/// session.
pub open spec fn forwards(
    notification: Notification,
    req: SessionMessageRequest,
    session: Session,
    sender: SessionPartyNumber,
) -> bool {
    match req.receiver {
        Some(receiver) => {
            &&& notification matches Notification::Relay { method, messages }
            &&& method@ == SessionEvent::SessionMessage.name()
            &&& messages@.len() == 1
            &&& messages@[0].0 == session.signups()[receiver]
            &&& carries(messages@[0].1, req, sender)
        },
        None => {
            &&& notification matches Notification::Session {
                group_id,
                session_id,
                filter,
                method,
                message,
            }
            &&& group_id == req.group_id
            &&& session_id == req.session_id
            &&& filter@ == Seq::<ClientId>::empty()
            &&& method@ == SessionEvent::SessionMessage.name()
            &&& carries(message, req, sender)
        },
    }
}

/// Holds of the `session_message` requests that are forwarded: the session
/// is there, the caller is a party of it, and so is the receiver where the
/// request names one.
pub open spec fn forwardable(req: SessionMessageRequest, state: State, client_id: ClientId) -> bool {
    &&& state.find_session(req.group_id, req.session_id) matches Ok(session)
    &&& session.has_client(client_id)
    &&& req.receiver matches Some(receiver) ==> session.signups().contains_key(receiver)
}

/// What `session_message` owes: never a response. A request that can be
/// forwarded leaves one notification, which carries the message and the
/// party number of the caller; another request leaves nothing.
pub open spec fn session_message_post(
    req: SessionMessageRequest,
    state: State,
    before: Seq<Notification>,
    after: Seq<Notification>,
    client_id: ClientId,
    r: ServiceResponse,
) -> bool {
    &&& r matches Ok(None)
    &&& if forwardable(req, state, client_id) {
        let session = state.groups()[req.group_id].sessions@[req.session_id];
        &&& after.len() == before.len() + 1
        &&& after.drop_last() == before
        &&& exists|sender: SessionPartyNumber| #[trigger]
            session.signups().contains_key(sender) && session.signups()[sender] == client_id
                && forwards(after.last(), req, session, sender)
    } else {
        after == before
    }
}

#[derive(Debug, Clone, Copy)]
pub struct SessionService;

impl SessionService {
    /// Handles the requests of the session methods. A request of another
    /// method is answered with `MethodNotFound`.
    pub fn handle(
        &self,
        req: Request,
        state: &mut State,
        notifications: &mut Vec<Notification>,
        client_id: ClientId,
    ) -> (r: ServiceResponse)
        requires
            old(state).wf(),
            req.admissible(old(state), client_id),
        ensures
            final(state).wf(),
            match req {
                Request::SessionCreate(create) => session_create_post(
                    create,
                    *old(state),
                    *final(state),
                    old(notifications)@,
                    final(notifications)@,
                    client_id,
                    r,
                ),
                Request::SessionSignup(signup) => session_signup_post(
                    signup,
                    *old(state),
                    *final(state),
                    old(notifications)@,
                    final(notifications)@,
                    client_id,
                    r,
                ),
                Request::SessionLogin(login) => session_login_post(
                    login,
                    *old(state),
                    *final(state),
                    old(notifications)@,
                    final(notifications)@,
                    client_id,
                    r,
                ),
                Request::SessionMessage(message) => *final(state) == *old(state)
                    && session_message_post(
                    message,
                    *old(state),
                    old(notifications)@,
                    final(notifications)@,
                    client_id,
                    r,
                ),
                _ => {
                    &&& *final(state) == *old(state)
                    &&& final(notifications)@ == old(notifications)@
                    &&& r matches Err(Error::MethodNotFound { name })
                    &&& name@ == req.method().name()
                },
            },
    {
        match req {
            Request::SessionCreate(create) => self.session_create(
                create,
                state,
                notifications,
                client_id,
            ),
            Request::SessionSignup(signup) => self.session_signup(
                signup,
                state,
                notifications,
                client_id,
            ),
            Request::SessionLogin(login) => self.session_login(
                login,
                state,
                notifications,
                client_id,
            ),
            Request::SessionMessage(message) => self.session_message(
                message,
                state,
                notifications,
                client_id,
            ),
            _ => Err(Error::MethodNotFound { name: req.method().to_string() }),
        }
    }

    fn session_create(
        &self,
        req: SessionCreateRequest,
        state: &mut State,
        notifications: &mut Vec<Notification>,
        client_id: ClientId,
    ) -> (r: ServiceResponse)
        requires
            old(state).wf(),
        ensures
            final(state).wf(),
            session_create_post(
                req,
                *old(state),
                *final(state),
                old(notifications)@,
                final(notifications)@,
                client_id,
                r,
            ),
    {
        let group_id = req.group_id;
        let (group, session) = match state.add_session(group_id, req.kind, req.value) {
            Ok(added) => added,
            Err(e) => {
                return Err(Error::InvalidParams { data: e.to_string() });
            },
        };
        let response = SessionCreateResponse { session: session.clone() };
        let mut filter: Vec<ClientId> = Vec::new();
        filter.push(client_id);
        notifications.push(
            Notification::Group {
                group_id,
                filter,
                method: SessionEvent::SessionCreated.to_string(),
                message: Message::SessionCreated(SessionCreatedNotification { group, session }),
            },
        );
        proof {
            assert(notifications@.drop_last() =~= old(notifications)@);
            assert(filter@ =~= seq![client_id]);
        }
        Ok(Some(Response::SessionCreate(response)))
    }

    fn session_signup(
        &self,
        req: SessionSignupRequest,
        state: &mut State,
        notifications: &mut Vec<Notification>,
        client_id: ClientId,
    ) -> (r: ServiceResponse)
        requires
            old(state).wf(),
            old(state).has_room_for(client_id, req.group_id, req.session_id),
        ensures
            final(state).wf(),
            session_signup_post(
                req,
                *old(state),
                *final(state),
                old(notifications)@,
                final(notifications)@,
                client_id,
                r,
            ),
    {
        let (group, session, party_number, threshold) = match state.signup_session(
            client_id,
            req.group_id,
            req.session_id,
        ) {
            Ok(signed) => signed,
            Err(e) => {
                return Err(Error::InvalidParams { data: e.to_string() });
            },
        };
        let response = SessionSignupResponse { session: session.clone(), party_number };
        if threshold {
            self.tell_ready(req.group_id, group, session, notifications);
        }
        Ok(Some(Response::SessionSignup(response)))
    }

    fn session_login(
        &self,
        req: SessionLoginRequest,
        state: &mut State,
        notifications: &mut Vec<Notification>,
        client_id: ClientId,
    ) -> (r: ServiceResponse)
        requires
            old(state).wf(),
            req.party_number >= 1,
        ensures
            final(state).wf(),
            session_login_post(
                req,
                *old(state),
                *final(state),
                old(notifications)@,
                final(notifications)@,
                client_id,
                r,
            ),
    {
        let (group, session, threshold) = match state.login_session(
            client_id,
            req.group_id,
            req.session_id,
            req.party_number,
        ) {
            Ok(logged) => logged,
            Err(e) => {
                return Err(Error::InvalidParams { data: e.to_string() });
            },
        };
        let response = SessionLoginResponse { session: session.clone() };
        if threshold {
            self.tell_ready(req.group_id, group, session, notifications);
        }
        Ok(Some(Response::SessionLogin(response)))
    }

    /// Leaves the notification that tells the whole group that a session
    /// is ready.
    fn tell_ready(
        &self,
        group_id: GroupId,
        group: Group,
        session: Session,
        notifications: &mut Vec<Notification>,
    )
        requires
            group.wf(),
            group.is_new(group_id, group.params),
            session.wf(),
            session.is_new(session.id, session.kind, session.value),
        ensures
            final(notifications)@.len() == old(notifications)@.len() + 1,
            final(notifications)@.drop_last() == old(notifications)@,
            announces(
                final(notifications)@.last(),
                SessionEvent::SessionReady,
                Seq::<ClientId>::empty(),
                group_id,
                group.params,
                session.id,
                session.kind,
                session.value,
            ),
    {
        notifications.push(
            Notification::Group {
                group_id,
                filter: Vec::new(),
                method: SessionEvent::SessionReady.to_string(),
                message: Message::SessionReady(SessionReadyNotification { group, session }),
            },
        );
        proof {
            assert(notifications@.drop_last() =~= old(notifications)@);
        }
    }

    fn session_message(
        &self,
        req: SessionMessageRequest,
        state: &State,
        notifications: &mut Vec<Notification>,
        client_id: ClientId,
    ) -> (r: ServiceResponse)
        requires
            state.wf(),
        ensures
            session_message_post(
                req,
                *state,
                old(notifications)@,
                final(notifications)@,
                client_id,
                r,
            ),
    {
        let self_party_number = match state.get_party_number_from_client_id(
            req.group_id,
            req.session_id,
            client_id,
        ) {
            Ok(party_number) => party_number,
            Err(_) => {
                return Ok(None);
            },
        };
        match state.validate_group_and_session(req.group_id, req.session_id) {
            Ok(()) => {},
            Err(_) => {
                return Ok(None);
            },
        }
        let ghost session = state.groups()[req.group_id].sessions@[req.session_id];
        assert(session.has_client(client_id));
        match req.receiver {
            Some(party_number) => {
                let receiver_client_id = match state.get_client_id_from_party_number(
                    req.group_id,
                    req.session_id,
                    party_number,
                ) {
                    Ok(receiver_client_id) => receiver_client_id,
                    Err(_) => {
                        return Ok(None);
                    },
                };
                let res = Message::SessionMessage(
                    SessionMessageNotification {
                        group_id: req.group_id,
                        session_id: req.session_id,
                        message: req.message,
                        sender: self_party_number,
                    },
                );
                let mut messages: Vec<(ClientId, Message)> = Vec::new();
                messages.push((receiver_client_id, res));
                notifications.push(
                    Notification::Relay {
                        method: SessionEvent::SessionMessage.to_string(),
                        messages,
                    },
                );
            },
            None => {
                let res = Message::SessionMessage(
                    SessionMessageNotification {
                        group_id: req.group_id,
                        session_id: req.session_id,
                        message: req.message,
                        sender: self_party_number,
                    },
                );
                notifications.push(
                    Notification::Session {
                        method: SessionEvent::SessionMessage.to_string(),
                        group_id: req.group_id,
                        session_id: req.session_id,
                        filter: Vec::new(),
                        message: res,
                    },
                );
            },
        }
        proof {
            assert(notifications@.drop_last() =~= old(notifications)@);
            assert(session.signups().contains_key(self_party_number));
            assert(forwards(notifications@.last(), req, session, self_party_number));
        }
        Ok(None)
    }
}

} // verus!
