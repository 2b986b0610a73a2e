//! Services: the handlers of the requests, and the handler that routes a
//! request to the service that it belongs to.

use self::group_service::{
    GroupCreateRequest, GroupCreateResponse, GroupJoinRequest, GroupJoinResponse, GroupMethod,
    GroupService,
};
use self::notification::Notification;
use self::session_service::{
    SessionCreateRequest, SessionCreateResponse, SessionLoginRequest, SessionLoginResponse,
    SessionMessageRequest, SessionMethod, SessionService, SessionSignupRequest,
    SessionSignupResponse,
};
use crate::state::{ClientId, State};
use crate::text::same_text;
use vstd::prelude::*;
use vstd::string::*;

pub mod group_service;
pub mod notification;
pub mod session_service;

verus! {

/// Separates the name of the service from the rest of a method's name.
pub const SUBROUTE_SEPARATOR: &'static str = "_";

/// The separator as a character.
pub open spec fn separator() -> char {
    SUBROUTE_SEPARATOR@[0]
}

/// A method of one of the services.
#[derive(Debug, Clone, Copy, PartialEq, Eq, Structural)]
pub enum Method {
    /// A method of the group service.
    Group(GroupMethod),
    /// A method of the session service.
    Session(SessionMethod),
}

impl Method {
    /// The name of the method on the wire.
    pub open spec fn name(self) -> Seq<char> {
        match self {
            Method::Group(method) => method.name(),
            Method::Session(method) => method.name(),
        }
    }

    /// The method that a name stands for, if any.
    pub open spec fn named(name: Seq<char>) -> Option<Method> {
        match GroupMethod::named(name) {
            Some(method) => Some(Method::Group(method)),
            None => match SessionMethod::named(name) {
                Some(method) => Some(Method::Session(method)),
                None => None,
            },
        }
    }

    /// Writes the name of the method.
    pub fn to_string(&self) -> (s: String)
        ensures
            s@ == self.name(),
    {
        match self {
            Method::Group(method) => method.to_string(),
            Method::Session(method) => method.to_string(),
        }
    }
}

/// A request, with the parameters of its method.
#[derive(Debug)]
pub enum Request {
    GroupCreate(GroupCreateRequest),
    GroupJoin(GroupJoinRequest),
    SessionCreate(SessionCreateRequest),
    SessionSignup(SessionSignupRequest),
    SessionLogin(SessionLoginRequest),
    SessionMessage(SessionMessageRequest),
}

impl Request {
    /// The method of the request, in contracts.
    pub open spec fn spec_method(&self) -> Method {
        match self {
            Request::GroupCreate(_) => Method::Group(GroupMethod::GroupCreate),
            Request::GroupJoin(_) => Method::Group(GroupMethod::GroupJoin),
            Request::SessionCreate(_) => Method::Session(SessionMethod::SessionCreate),
            Request::SessionSignup(_) => Method::Session(SessionMethod::SessionSignup),
            Request::SessionLogin(_) => Method::Session(SessionMethod::SessionLogin),
            Request::SessionMessage(_) => Method::Session(SessionMethod::SessionMessage),
        }
    }

    /// Holds of the requests that can be served in `state` for `client_id`:
    /// a signup needs a party number that is left in its session, and a
    /// login a party number that is at least 1.
    pub open spec fn admissible(&self, state: &State, client_id: ClientId) -> bool {
        match self {
            Request::SessionSignup(signup) => state.has_room_for(
                client_id,
                signup.group_id,
                signup.session_id,
            ),
            Request::SessionLogin(login) => login.party_number >= 1,
            _ => true,
        }
    }

    /// The method of the request.
    #[verifier::when_used_as_spec(spec_method)]
    pub fn method(&self) -> (method: Method)
        ensures
            method == self.spec_method(),
    {
        match self {
            Request::GroupCreate(_) => Method::Group(GroupMethod::GroupCreate),
            Request::GroupJoin(_) => Method::Group(GroupMethod::GroupJoin),
            Request::SessionCreate(_) => Method::Session(SessionMethod::SessionCreate),
            Request::SessionSignup(_) => Method::Session(SessionMethod::SessionSignup),
            Request::SessionLogin(_) => Method::Session(SessionMethod::SessionLogin),
            Request::SessionMessage(_) => Method::Session(SessionMethod::SessionMessage),
        }
    }

    /// Tests whether the request can be served in `state` for `client_id`.
    pub fn is_admissible(&self, state: &State, client_id: ClientId) -> (ok: bool)
        requires
            state.wf(),
        ensures
            ok == self.admissible(state, client_id),
    {
        match self {
            Request::SessionSignup(signup) => state.can_signup(
                client_id,
                signup.group_id,
                signup.session_id,
            ),
            Request::SessionLogin(login) => login.party_number >= 1,
            _ => true,
        }
    }
}

/// The result of a request that was served.
#[derive(Debug)]
pub enum Response {
    GroupCreate(GroupCreateResponse),
    GroupJoin(GroupJoinResponse),
    SessionCreate(SessionCreateResponse),
    SessionSignup(SessionSignupResponse),
    SessionLogin(SessionLoginResponse),
}

/// The error of a request that was refused.
#[derive(Debug, PartialEq, Eq)]
pub enum Error {
    /// No service has a method of that name.
    MethodNotFound {
        /// The name that was asked for.
        name: String,
    },
    /// The parameters of the request are not acceptable.
    InvalidParams {
        /// What is wrong with them.
        data: String,
    },
}

/// What a service answers: a response, none where the method has none, or
/// an error.
pub type ServiceResponse = Result<Option<Response>, Error>;

/// Where the first separator stands in `name`.
pub open spec fn separated_at(name: Seq<char>, at: int) -> bool {
    &&& 0 <= at < name.len()
    &&& name[at] == separator()
    &&& forall|j: int| 0 <= j < at ==> name[j] != separator()
}

/// Finds the first separator of a method's name.
fn first_separator(name: &str) -> (r: Option<usize>)
    ensures
        match r {
            Some(at) => separated_at(name@, at as int),
            None => forall|j: int| 0 <= j < name@.len() ==> name@[j] != separator(),
        },
{
    proof {
        reveal_strlit("_");
    }
    let mark = SUBROUTE_SEPARATOR.get_char(0);
    let len = name.unicode_len();
    let mut at: usize = 0;
    while at < len
        invariant
            at <= len,
            len == name@.len(),
            mark == separator(),
            forall|j: int| 0 <= j < at ==> name@[j] != separator(),
        decreases len - at,
    {
        if name.get_char(at) == mark {
            return Some(at);
        }
        at += 1;
    }
    None
}

/// The name of every group method starts with the prefix of the group
/// service and a separator.
proof fn lemma_group_names(name: Seq<char>)
    requires
        GroupMethod::named(name) is Some,
    ensures
        separated_at(name, 5),
        name.subrange(0, 5) == group_service::ROUTE_PREFIX@,
        SessionMethod::named(name) is None,
{
    reveal_strlit("_");
    reveal_strlit("group");
    reveal_strlit("group_create");
    reveal_strlit("group_join");
    reveal_strlit("session_create");
    reveal_strlit("session_signup");
    reveal_strlit("session_login");
    reveal_strlit("session_message");
    assert(name.subrange(0, 5) =~= "group"@);
    assert(name[0] == 'g');
}

/// The name of every session method starts with the prefix of the session
/// service and a separator.
proof fn lemma_session_names(name: Seq<char>)
    requires
        SessionMethod::named(name) is Some,
    ensures
        separated_at(name, 7),
        name.subrange(0, 7) == session_service::ROUTE_PREFIX@,
        GroupMethod::named(name) is None,
{
    reveal_strlit("_");
    reveal_strlit("session");
    reveal_strlit("group_create");
    reveal_strlit("group_join");
    reveal_strlit("session_create");
    reveal_strlit("session_signup");
    reveal_strlit("session_login");
    reveal_strlit("session_message");
    assert(name.subrange(0, 7) =~= "session"@);
    assert(name[0] == 's');
}

/// Service handler in charge of routing communications to given
/// services, in case they match, otherwise returns not found.
#[derive(Debug, Clone, Copy)]
pub struct ServiceHandler {
    /// The service of the group methods.
    group: GroupService,
    /// The service of the session methods.
    session: SessionService,
}

impl ServiceHandler {
    /// Create a new ServiceHandler.
    pub fn new() -> Self {
        Self { group: GroupService, session: SessionService }
    }

    /// Finds the method that a name stands for. The part of the name before
    /// its first separator names the service, and the service knows its
    /// methods by their whole name. A name without a separator, with an
    /// unknown service or with an unknown method gives `MethodNotFound`
    /// with that name.
    pub fn route(&self, method: &str) -> (r: Result<Method, Error>)
        ensures
            match r {
                Ok(found) => Method::named(method@) == Some(found),
                Err(e) => {
                    &&& Method::named(method@) is None
                    &&& e matches Error::MethodNotFound { name }
                    &&& name@ == method@
                },
            },
    {
        proof {
            if GroupMethod::named(method@) is Some {
                lemma_group_names(method@);
            }
            if SessionMethod::named(method@) is Some {
                lemma_session_names(method@);
            }
            reveal_strlit("group");
            reveal_strlit("session");
        }
        let at = match first_separator(method) {
            Some(at) => at,
            None => {
                return Err(self.build_error_not_found_method(method));
            },
        };
        let subroute = method.substring_char(0, at);
        proof {
            if GroupMethod::named(method@) is Some {
                assert(method@[5] == separator());
                assert(at == 5);
            }
            if SessionMethod::named(method@) is Some {
                assert(method@[7] == separator());
                assert(at == 7);
            }
        }
        if same_text(subroute, group_service::ROUTE_PREFIX) {
            assert(subroute@.len() == 5);
            match GroupMethod::from_str(method) {
                Some(found) => Ok(Method::Group(found)),
                None => Err(self.build_error_not_found_method(method)),
            }
        } else if same_text(subroute, session_service::ROUTE_PREFIX) {
            assert(subroute@.len() == 7);
            match SessionMethod::from_str(method) {
                Some(found) => Ok(Method::Session(found)),
                None => Err(self.build_error_not_found_method(method)),
            }
        } else {
            Err(self.build_error_not_found_method(method))
        }
    }

    /// Infallible service handler, errors are automatically converted to
    /// responses.
    ///
    /// If the method of the request has no response this will yield `None`.
    pub fn serve(
        &self,
        request: Request,
        state: &mut State,
        notifications: &mut Vec<Notification>,
        client_id: ClientId,
    ) -> (r: Option<Result<Response, Error>>)
        requires
            old(state).wf(),
            request.admissible(old(state), client_id),
        ensures
            final(state).wf(),
            handled(
                request,
                *old(state),
                *final(state),
                old(notifications)@,
                final(notifications)@,
                client_id,
                replied(r),
            ),
    {
        match self.handle(request, state, notifications, client_id) {
            Ok(Some(response)) => Some(Ok(response)),
            Ok(None) => None,
            Err(e) => Some(Err(e)),
        }
    }

    /// Call services according to the method of the request.
    pub fn handle(
        &self,
        req: Request,
        state: &mut State,
        notifications: &mut Vec<Notification>,
        client_id: ClientId,
    ) -> (r: ServiceResponse)
        requires
            old(state).wf(),
            req.admissible(old(state), client_id),
        ensures
            final(state).wf(),
            handled(
                req,
                *old(state),
                *final(state),
                old(notifications)@,
                final(notifications)@,
                client_id,
                r,
            ),
    {
        match req.method() {
            Method::Group(_) => self.group.handle(req, state, client_id),
            Method::Session(_) => self.session.handle(req, state, notifications, client_id),
        }
    }

    fn build_error_not_found_method(&self, method: &str) -> (e: Error)
        ensures
            e matches Error::MethodNotFound { name } && name@ == method@,
    {
        Error::MethodNotFound { name: method.to_owned() }
    }
}

/// The answer of a service that stands behind what `serve` returns.
pub open spec fn replied(r: Option<Result<Response, Error>>) -> ServiceResponse {
    match r {
        Some(Ok(response)) => Ok(Some(response)),
        Some(Err(e)) => Err(e),
        None => Ok(None),
    }
}

/// What the handling of a request owes, method by method: `pre` and `post`
/// are the state before and after, `before` and `after` the notifications
/// before and after, and `r` the answer.
pub open spec fn handled(
    req: Request,
    pre: State,
    post: State,
    before: Seq<Notification>,
    after: Seq<Notification>,
    client_id: ClientId,
    r: ServiceResponse,
) -> bool {
    match req {
        Request::GroupCreate(create) => after == before && group_service::group_create_post(
            create,
            pre,
            post,
            client_id,
            r,
        ),
        Request::GroupJoin(join) => after == before && group_service::group_join_post(
            join,
            pre,
            post,
            client_id,
            r,
        ),
        Request::SessionCreate(create) => session_service::session_create_post(
            create,
            pre,
            post,
            before,
            after,
            client_id,
            r,
        ),
        Request::SessionSignup(signup) => session_service::session_signup_post(
            signup,
            pre,
            post,
            before,
            after,
            client_id,
            r,
        ),
        Request::SessionLogin(login) => session_service::session_login_post(
            login,
            pre,
            post,
            before,
            after,
            client_id,
            r,
        ),
        Request::SessionMessage(message) => post == pre
            && session_service::session_message_post(message, pre, before, after, client_id, r),
    }
}

impl Default for ServiceHandler {
    fn default() -> Self {
        Self::new()
    }
}

} // verus!
