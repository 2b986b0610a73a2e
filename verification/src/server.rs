//! # Server
//!
//! The part of a connection that decides: it serves the requests of its
//! client and plans, frame by frame, what goes to whose outbound queue.

use crate::id::is_random_id;
use crate::service::notification::{Message, Notification};
use crate::service::{handled, replied, Error, Request, Response, ServiceHandler};
use crate::state::{ClientId, State};
use vstd::prelude::*;

verus! {

/// A frame for the outbound queue of one client.
#[derive(Debug)]
pub enum Outbound<'a> {
    /// The answer to the request of the client.
    Response {
        /// The client that made the request.
        client_id: ClientId,
        /// The response, or the error.
        response: &'a Result<Response, Error>,
    },
    /// A request that nobody answers: a notification.
    Request {
        /// The client that is notified.
        client_id: ClientId,
        /// The method name.
        method: &'a String,
        /// The message.
        message: &'a Message,
    },
}

impl<'a> Outbound<'a> {
    /// The client that the frame is for.
    pub open spec fn recipient(self) -> ClientId {
        match self {
            Outbound::Response { client_id, .. } => client_id,
            Outbound::Request { client_id, .. } => client_id,
        }
    }
}

/// What the handling of a request leaves: the answer for the caller, if
/// the method has one, and the notifications for its peers.
#[derive(Debug)]
pub struct Outcome {
    /// The response or the error for the caller.
    pub response: Option<Result<Response, Error>>,
    /// The notifications, in the order in which the handler left them.
    pub notifications: Vec<Notification>,
}

/// Holds of the clients that a notification reaches: those that `filter`
/// does not name, that are not `skip`, and that are connected.
pub open spec fn addressed(state: State, filter: Seq<ClientId>, skip: Option<ClientId>) -> spec_fn(
    ClientId,
) -> bool {
    |client_id: ClientId|
        !filter.contains(client_id) && skip != Some(client_id) && state.clients().contains_key(
            client_id,
        )
}

/// Holds of the relayed messages whose client is connected.
pub open spec fn reachable(state: State) -> spec_fn((ClientId, Message)) -> bool {
    |relayed: (ClientId, Message)| state.clients().contains_key(relayed.0)
}

/// The frames that carry one message under one method name to the clients
/// `to`, in their order.
pub open spec fn requests<'a>(to: Seq<ClientId>, method: &'a String, message: &'a Message) -> Seq<
    Outbound<'a>,
> {
    Seq::new(to.len(), |i: int| Outbound::Request { client_id: to[i], method, message })
}

/// The frames that carry each of the `relayed` messages to its client, in
/// their order.
pub open spec fn relays<'a>(relayed: Seq<(ClientId, Message)>, method: &'a String) -> Seq<
    Outbound<'a>,
> {
    Seq::new(
        relayed.len(),
        |i: int| Outbound::Request { client_id: relayed[i].0, method, message: &relayed[i].1 },
    )
}

/// Holds where the frames `out` realise `notification` for the connection
/// of `self_id`.
///
/// * A group notification goes to the members of the group that are
///   addressed, to each once; their order is left open. Nobody gets it
///   where the group is not there.
/// * A session notification goes to the clients of the session that are
///   addressed and are not the caller, by ascending party number. Nobody
///   gets it where the session is not there.
/// * A relay goes to the clients that its messages name, in their order,
///   as far as they are connected.
pub open spec fn delivered(
    state: State,
    self_id: ClientId,
    notification: Notification,
    out: Seq<Outbound>,
) -> bool {
    match notification {
        Notification::Group { group_id, filter, method, message } => {
            if state.groups().contains_key(group_id) {
                exists|order: Seq<ClientId>|
                    {
                        &&& order.no_duplicates()
                        &&& order.to_set() == state.groups()[group_id].members()
                        &&& out == requests(
                            #[trigger] order.filter(addressed(state, filter@, None)),
                            &method,
                            &message,
                        )
                    }
            } else {
                out == Seq::<Outbound>::empty()
            }
        },
        Notification::Session { group_id, session_id, filter, method, message } => {
            match state.find_session(group_id, session_id) {
                Ok(session) => out == requests(
                    session.client_ids().filter(addressed(state, filter@, Some(self_id))),
                    &method,
                    &message,
                ),
                Err(_) => out == Seq::<Outbound>::empty(),
            }
        },
        Notification::Relay { method, messages } => out == relays(
            messages@.filter(reachable(state)),
            &method,
        ),
    }
}

/// Holds where the frames `out` are what the connection of `self_id` owes
/// for `outcome`: first the response, where there is one and the caller is
/// still connected, and then the frames of each notification in turn.
pub open spec fn planned(state: State, self_id: ClientId, outcome: Outcome, out: Seq<Outbound>) -> bool {
    let head: int = if outcome.response is Some && state.clients().contains_key(self_id) {
        1
    } else {
        0
    };
    &&& out.len() >= head
    &&& head == 1 ==> out[0] == (Outbound::Response {
        client_id: self_id,
        response: &outcome.response->0,
    })
    &&& exists|parts: Seq<Seq<Outbound>>|
        {
            &&& parts.len() == outcome.notifications@.len()
            &&& forall|i: int|
                0 <= i < parts.len() ==> delivered(
                    state,
                    self_id,
                    outcome.notifications@[i],
                    #[trigger] parts[i],
                )
            &&& out.subrange(head, out.len() as int) == #[trigger] parts.flatten()
        }
}

/// Tests whether `client_id` is one of `filter`.
fn is_filtered(filter: &Vec<ClientId>, client_id: ClientId) -> (found: bool)
    ensures
        found == filter@.contains(client_id),
{
    let mut i: usize = 0;
    while i < filter.len()
        invariant
            i <= filter.len(),
            forall|j: int| 0 <= j < i ==> filter@[j] != client_id,
        decreases filter.len() - i,
    {
        if filter[i] == client_id {
            return true;
        }
        i += 1;
    }
    false
}

/// Server handler that manages the communications of one client.
#[derive(Debug)]
pub struct Server {
    /// Unique client id.
    client_id: ClientId,
    /// Service handler for the requests.
    service_handler: ServiceHandler,
}

impl Server {
    /// The id of the client, in contracts.
    pub closed spec fn spec_client_id(&self) -> ClientId {
        self.client_id
    }

    /// Creates a new server object, with a fresh id for its client.
    pub fn new(state: &State, service_handler: ServiceHandler) -> (server: Self)
        ensures
            is_random_id(server.client_id()),
    {
        let client_id = state.new_client_id();
        Self { client_id, service_handler }
    }

    /// Handles a request: the services answer it, change the state and
    /// leave their notifications.
    pub fn handle_rpc_request(&self, state: &mut State, req: Request) -> (outcome: Outcome)
        requires
            old(state).wf(),
            req.admissible(old(state), self.client_id()),
        ensures
            final(state).wf(),
            handled(
                req,
                *old(state),
                *final(state),
                Seq::<Notification>::empty(),
                outcome.notifications@,
                self.client_id(),
                replied(outcome.response),
            ),
    {
        let mut notifications: Vec<Notification> = Vec::new();
        let response = self.service_handler.serve(req, state, &mut notifications, self.client_id);
        Outcome { response, notifications }
    }

    /// Plans the frames that are due for an outcome: the response to the
    /// caller comes first, and the notifications follow in their order.
    /// A frame for a client that is not connected is left out.
    pub fn deliveries<'a>(&self, state: &State, outcome: &'a Outcome) -> (out: Vec<Outbound<'a>>)
        requires
            state.wf(),
        ensures
            planned(*state, self.client_id(), *outcome, out@),
    {
        let mut out: Vec<Outbound<'a>> = Vec::new();
        match &outcome.response {
            Some(response) => {
                if self.send_rpc_response(state, &self.client_id) {
                    out.push(Outbound::Response { client_id: self.client_id, response });
                }
            },
            None => {},
        }
        let ghost first = out@;
        let ghost mut parts: Seq<Seq<Outbound>> = Seq::empty();
        let mut i: usize = 0;
        while i < outcome.notifications.len()
            invariant
                i <= outcome.notifications.len(),
                state.wf(),
                parts.len() == i,
                forall|k: int|
                    0 <= k < i ==> delivered(
                        *state,
                        self.client_id(),
                        outcome.notifications@[k],
                        #[trigger] parts[k],
                    ),
                out@ == first + parts.flatten(),
            decreases outcome.notifications.len() - i,
        {
            let mut part = self.handle_rpc_notification(state, &outcome.notifications[i]);
            proof {
                parts.lemma_flatten_push(part@);
                parts = parts.push(part@);
            }
            out.append(&mut part);
            i += 1;
        }
        proof {
            assert(out@.subrange(first.len() as int, out@.len() as int) =~= parts.flatten());
        }
        out
    }

    /// Plans the frames of one notification.
    pub fn handle_rpc_notification<'a>(
        &self,
        state: &State,
        notification: &'a Notification,
    ) -> (out: Vec<Outbound<'a>>)
        requires
            state.wf(),
        ensures
            delivered(*state, self.client_id(), *notification, out@),
    {
        match notification {
            Notification::Group { group_id, filter, method, message } => {
                let client_ids = match state.get_client_ids_from_group(group_id) {
                    Ok(client_ids) => client_ids,
                    Err(_) => {
                        return Vec::new();
                    },
                };
                let mut out: Vec<Outbound<'a>> = Vec::new();
                let ghost keep = addressed(*state, filter@, None);
                let mut i: usize = 0;
                while i < client_ids.len()
                    invariant
                        i <= client_ids.len(),
                        keep == addressed(*state, filter@, None),
                        out@ == requests(
                            client_ids@.subrange(0, i as int).filter(keep),
                            method,
                            message,
                        ),
                    decreases client_ids.len() - i,
                {
                    let client_id = client_ids[i];
                    proof {
                        lemma_filter_next(client_ids@, keep, i as int);
                    }
                    if !is_filtered(filter, client_id) && self.send_rpc_request(state, &client_id) {
                        out.push(Outbound::Request { client_id, method, message });
                    }
                    assert(out@ =~= requests(
                        client_ids@.subrange(0, i + 1).filter(keep),
                        method,
                        message,
                    ));
                    i += 1;
                }
                assert(client_ids@.subrange(0, i as int) =~= client_ids@);
                out
            },
            Notification::Session { group_id, session_id, filter, method, message } => {
                let client_ids = match state.get_client_ids_from_session(group_id, session_id) {
                    Ok(client_ids) => client_ids,
                    Err(_) => {
                        return Vec::new();
                    },
                };
                let mut out: Vec<Outbound<'a>> = Vec::new();
                let ghost keep = addressed(*state, filter@, Some(self.client_id()));
                let mut i: usize = 0;
                while i < client_ids.len()
                    invariant
                        i <= client_ids.len(),
                        keep == addressed(*state, filter@, Some(self.client_id())),
                        out@ == requests(
                            client_ids@.subrange(0, i as int).filter(keep),
                            method,
                            message,
                        ),
                    decreases client_ids.len() - i,
                {
                    let client_id = client_ids[i];
                    proof {
                        lemma_filter_next(client_ids@, keep, i as int);
                    }
                    if !is_filtered(filter, client_id) && client_id != self.client_id
                        && self.send_rpc_request(state, &client_id) {
                        out.push(Outbound::Request { client_id, method, message });
                    }
                    assert(out@ =~= requests(
                        client_ids@.subrange(0, i + 1).filter(keep),
                        method,
                        message,
                    ));
                    i += 1;
                }
                assert(client_ids@.subrange(0, i as int) =~= client_ids@);
                out
            },
            Notification::Relay { method, messages } => {
                let mut out: Vec<Outbound<'a>> = Vec::new();
                let ghost keep = reachable(*state);
                let mut i: usize = 0;
                while i < messages.len()
                    invariant
                        i <= messages.len(),
                        keep == reachable(*state),
                        out@ == relays(messages@.subrange(0, i as int).filter(keep), method),
                    decreases messages.len() - i,
                {
                    let relayed = &messages[i];
                    proof {
                        lemma_filter_next(messages@, keep, i as int);
                    }
                    if self.send_rpc_request(state, &relayed.0) {
                        out.push(
                            Outbound::Request { client_id: relayed.0, method, message: &relayed.1 },
                        );
                    }
                    assert(out@ =~= relays(messages@.subrange(0, i + 1).filter(keep), method));
                    i += 1;
                }
                assert(messages@.subrange(0, i as int) =~= messages@);
                out
            },
        }
    }

    /// Decides whether the response goes out: it does where the client is
    /// connected.
    fn send_rpc_response(&self, state: &State, client_id: &ClientId) -> (sent: bool)
        ensures
            sent == state.clients().contains_key(*client_id),
    {
        state.has_client(client_id)
    }

    /// Decides whether a request goes out: it does where the client is
    /// connected.
    fn send_rpc_request(&self, state: &State, client_id: &ClientId) -> (sent: bool)
        ensures
            sent == state.clients().contains_key(*client_id),
    {
        state.has_client(client_id)
    }

    /// Returns client id.
    #[verifier::when_used_as_spec(spec_client_id)]
    pub fn client_id(&self) -> (client_id: ClientId)
        ensures
            client_id == self.spec_client_id(),
    {
        self.client_id
    }
}

/// Filtering one element more of a sequence keeps what was kept, and the
/// new element where the predicate holds of it.
pub proof fn lemma_filter_next<A>(s: Seq<A>, keep: spec_fn(A) -> bool, i: int)
    requires
        0 <= i < s.len(),
    ensures
        s.subrange(0, i + 1).filter(keep) == if keep(s[i]) {
            s.subrange(0, i).filter(keep).push(s[i])
        } else {
            s.subrange(0, i).filter(keep)
        },
{
    reveal(Seq::filter);
    assert(s.subrange(0, i + 1).drop_last() =~= s.subrange(0, i));
}

/// Every element of a flattened sequence comes from one of its parts.
proof fn lemma_flatten_all<A>(parts: Seq<Seq<A>>, holds: spec_fn(A) -> bool)
    requires
        forall|i: int, j: int|
            0 <= i < parts.len() && 0 <= j < parts[i].len() ==> holds(#[trigger] parts[i][j]),
    ensures
        forall|k: int| 0 <= k < parts.flatten().len() ==> holds(#[trigger] parts.flatten()[k]),
    decreases parts.len(),
{
    if parts.len() > 0 {
        let rest = parts.drop_first();
        assert forall|i: int, j: int| 0 <= i < rest.len() && 0 <= j < rest[i].len() implies holds(
            #[trigger] rest[i][j],
        ) by {
            assert(rest[i][j] == parts[i + 1][j]);
        }
        lemma_flatten_all(rest, holds);
        assert forall|k: int| 0 <= k < parts.flatten().len() implies holds(
            #[trigger] parts.flatten()[k],
        ) by {
            if k < parts[0].len() {
                assert(parts.flatten()[k] == parts[0][k]);
            } else {
                assert(parts.flatten()[k] == rest.flatten()[k - parts[0].len()]);
            }
        }
    }
}

/// The response comes before the notifications: in the frames that are
/// planned for an outcome, no notification stands before the response, and
/// there is at most one response.
pub proof fn lemma_response_comes_first(
    state: State,
    self_id: ClientId,
    outcome: Outcome,
    out: Seq<Outbound>,
)
    requires
        planned(state, self_id, outcome, out),
    ensures
        forall|i: int, j: int|
            0 <= i < out.len() && 0 <= j < out.len() && out[i] is Response && out[j] is Request
                ==> i < j,
        forall|i: int| 0 < i < out.len() ==> out[i] is Request,
{
    let head: int = if outcome.response is Some && state.clients().contains_key(self_id) {
        1
    } else {
        0
    };
    let parts = choose|parts: Seq<Seq<Outbound>>|
        {
            &&& parts.len() == outcome.notifications@.len()
            &&& forall|i: int|
                0 <= i < parts.len() ==> delivered(
                    state,
                    self_id,
                    outcome.notifications@[i],
                    #[trigger] parts[i],
                )
            &&& out.subrange(head, out.len() as int) == #[trigger] parts.flatten()
        };
    let is_request = |frame: Outbound| frame is Request;
    assert forall|i: int, j: int| 0 <= i < parts.len() && 0 <= j < parts[i].len() implies is_request(
        #[trigger] parts[i][j],
    ) by {
        lemma_delivered_requests(state, self_id, outcome.notifications@[i], parts[i]);
    }
    lemma_flatten_all(parts, is_request);
    assert forall|i: int| head <= i < out.len() implies out[i] is Request by {
        assert(out[i] == out.subrange(head, out.len() as int)[i - head]);
        assert(is_request(parts.flatten()[i - head]));
    }
}

/// The frames of a notification are requests.
proof fn lemma_delivered_requests(
    state: State,
    self_id: ClientId,
    notification: Notification,
    out: Seq<Outbound>,
)
    requires
        delivered(state, self_id, notification, out),
    ensures
        forall|i: int| 0 <= i < out.len() ==> #[trigger] out[i] is Request,
{
}

} // verus!
