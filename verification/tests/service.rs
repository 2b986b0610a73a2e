use mpc_manager::service::group_service::{
    GroupCreateRequest, GroupJoinRequest, GroupMethod, GroupService,
};
use mpc_manager::service::notification::{Message, Notification};
use mpc_manager::service::session_service::{
    SessionCreateRequest, SessionLoginRequest, SessionMessageRequest, SessionMethod,
    SessionService, SessionSignupRequest,
};
use mpc_manager::service::{Error, Method, Request, Response, ServiceHandler};
use mpc_manager::state::parameters::Parameters;
use mpc_manager::state::session::SessionKind;
use mpc_manager::state::State;
use serde_json::Value;

const A: u128 = 0xa;
const B: u128 = 0xb;
const C: u128 = 0xc;
const G: u128 = 0x100;

fn not_found(name: &str) -> Error {
    Error::MethodNotFound { name: name.to_string() }
}

fn create_group(state: &mut State, client: u128, n: u16, t: u16) -> u128 {
    let handler = ServiceHandler::new();
    let mut notes = Vec::new();
    let request = Request::GroupCreate(GroupCreateRequest { parameters: Parameters::unchecked(n, t) });
    match handler.handle(request, state, &mut notes, client) {
        Ok(Some(Response::GroupCreate(response))) => {
            assert!(notes.is_empty());
            response.group.id
        }
        other => panic!("group_create answered {:?}", other),
    }
}

fn create_session(state: &mut State, client: u128, group_id: u128, kind: SessionKind) -> u128 {
    let handler = ServiceHandler::new();
    let mut notes = Vec::new();
    let request = Request::SessionCreate(SessionCreateRequest { group_id, kind, value: None });
    match handler.handle(request, state, &mut notes, client) {
        Ok(Some(Response::SessionCreate(response))) => response.session.id,
        other => panic!("session_create answered {:?}", other),
    }
}

#[test]
fn route_finds_the_six_methods() {
    let handler = ServiceHandler::new();
    assert_eq!(handler.route("group_create"), Ok(Method::Group(GroupMethod::GroupCreate)));
    assert_eq!(handler.route("group_join"), Ok(Method::Group(GroupMethod::GroupJoin)));
    assert_eq!(
        handler.route("session_create"),
        Ok(Method::Session(SessionMethod::SessionCreate))
    );
    assert_eq!(
        handler.route("session_signup"),
        Ok(Method::Session(SessionMethod::SessionSignup))
    );
    assert_eq!(
        handler.route("session_login"),
        Ok(Method::Session(SessionMethod::SessionLogin))
    );
    assert_eq!(
        handler.route("session_message"),
        Ok(Method::Session(SessionMethod::SessionMessage))
    );
}

#[test]
fn route_refuses_a_name_without_separator() {
    let handler = ServiceHandler::default();
    assert_eq!(handler.route("group"), Err(not_found("group")));
    assert_eq!(handler.route("session"), Err(not_found("session")));
    assert_eq!(handler.route(""), Err(not_found("")));
    assert_eq!(handler.route("groupcreate"), Err(not_found("groupcreate")));
}

#[test]
fn route_refuses_an_unknown_service() {
    let handler = ServiceHandler::new();
    assert_eq!(handler.route("party_create"), Err(not_found("party_create")));
    assert_eq!(handler.route("_create"), Err(not_found("_create")));
    assert_eq!(handler.route("Group_create"), Err(not_found("Group_create")));
}

#[test]
fn route_refuses_an_unknown_method_of_a_known_service() {
    let handler = ServiceHandler::new();
    assert_eq!(handler.route("group_leave"), Err(not_found("group_leave")));
    assert_eq!(handler.route("group_"), Err(not_found("group_")));
    assert_eq!(handler.route("session_ready"), Err(not_found("session_ready")));
    assert_eq!(handler.route("session_create_"), Err(not_found("session_create_")));
    assert_eq!(handler.route("group_create "), Err(not_found("group_create ")));
}

#[test]
fn method_names_of_requests() {
    let request = Request::GroupJoin(GroupJoinRequest { group_id: G });
    assert_eq!(request.method(), Method::Group(GroupMethod::GroupJoin));
    assert_eq!(request.method().to_string(), "group_join");
    let request = Request::SessionSignup(SessionSignupRequest { group_id: G, session_id: 1 });
    assert_eq!(request.method(), Method::Session(SessionMethod::SessionSignup));
    assert_eq!(request.method().to_string(), "session_signup");
}

#[test]
fn each_service_refuses_the_methods_of_the_other() {
    let mut state = State::new();
    let mut notes = Vec::new();
    let answer = GroupService.handle(
        Request::SessionSignup(SessionSignupRequest { group_id: G, session_id: 1 }),
        &mut state,
        A,
    );
    assert_eq!(answer.unwrap_err(), not_found("session_signup"));
    let answer = SessionService.handle(
        Request::GroupJoin(GroupJoinRequest { group_id: G }),
        &mut state,
        &mut notes,
        A,
    );
    assert_eq!(answer.unwrap_err(), not_found("group_join"));
    assert!(notes.is_empty());
    assert!(state.group_ids().is_empty());
}

#[test]
fn group_create_makes_the_caller_the_first_member() {
    let mut state = State::new();
    let group_id = create_group(&mut state, A, 2, 1);
    assert_eq!(state.group_ids(), vec![group_id]);
    assert_eq!(state.get_client_ids_from_group(&group_id), Ok(vec![A]));
}

#[test]
fn group_create_shows_id_and_parameters() {
    let mut state = State::new();
    let handler = ServiceHandler::new();
    let mut notes = Vec::new();
    let request =
        Request::GroupCreate(GroupCreateRequest { parameters: Parameters::unchecked(3, 2) });
    match handler.serve(request, &mut state, &mut notes, A) {
        Some(Ok(Response::GroupCreate(response))) => {
            assert_eq!(response.group.params, Parameters::new(3, 2).unwrap());
            assert!(response.group.clients.is_empty());
            assert!(response.group.sessions.is_empty());
            assert_eq!(state.group_ids(), vec![response.group.id]);
        }
        other => panic!("group_create answered {:?}", other),
    }
    assert!(notes.is_empty());
}

#[test]
fn group_create_refuses_invalid_parameters() {
    let handler = ServiceHandler::new();
    for (n, t, text) in [
        (1u16, 1u16, "invalid number of parties 1"),
        (2, 0, "invalid threshold 0"),
        (2, 2, "invalid threshold 2"),
    ] {
        let mut state = State::new();
        let mut notes = Vec::new();
        let request =
            Request::GroupCreate(GroupCreateRequest { parameters: Parameters::unchecked(n, t) });
        let answer = handler.serve(request, &mut state, &mut notes, A);
        match answer {
            Some(Err(e)) => assert_eq!(e, Error::InvalidParams { data: text.to_string() }),
            other => panic!("group_create answered {:?}", other),
        }
        assert!(state.group_ids().is_empty());
        assert!(notes.is_empty());
    }
}

#[test]
fn group_join_until_full() {
    let mut state = State::new();
    let handler = ServiceHandler::new();
    let group_id = create_group(&mut state, A, 2, 1);
    let mut notes = Vec::new();

    let answer = handler.handle(
        Request::GroupJoin(GroupJoinRequest { group_id }),
        &mut state,
        &mut notes,
        B,
    );
    match answer {
        Ok(Some(Response::GroupJoin(response))) => {
            assert_eq!(response.group.id, group_id);
            assert_eq!(response.group.params, Parameters::new(2, 1).unwrap());
        }
        other => panic!("group_join answered {:?}", other),
    }

    let answer = handler.handle(
        Request::GroupJoin(GroupJoinRequest { group_id }),
        &mut state,
        &mut notes,
        C,
    );
    let id = mpc_manager::state::StateError::GroupNotFound(group_id).to_string();
    let id = &id[7..43];
    assert_eq!(
        answer.unwrap_err(),
        Error::InvalidParams { data: format!("group '{}' is full", id) }
    );
    assert!(notes.is_empty());
    let mut members = state.get_client_ids_from_group(&group_id).unwrap();
    members.sort();
    assert_eq!(members, vec![A, B]);
}

#[test]
fn group_join_needs_the_group() {
    let mut state = State::new();
    let handler = ServiceHandler::new();
    let mut notes = Vec::new();
    let answer = handler.handle(
        Request::GroupJoin(GroupJoinRequest { group_id: G }),
        &mut state,
        &mut notes,
        A,
    );
    assert_eq!(
        answer.unwrap_err(),
        Error::InvalidParams {
            data: "group `00000000-0000-0000-0000-000000000100` not found".to_string()
        }
    );
}

#[test]
fn session_create_notifies_the_group_but_for_the_caller() {
    let mut state = State::new();
    let handler = ServiceHandler::new();
    let group_id = create_group(&mut state, A, 2, 1);
    let mut notes = Vec::new();
    let request = Request::SessionCreate(SessionCreateRequest {
        group_id,
        kind: SessionKind::Sign,
        value: Some(Value::String("tx".to_string())),
    });
    let session_id = match handler.handle(request, &mut state, &mut notes, A) {
        Ok(Some(Response::SessionCreate(response))) => {
            assert_eq!(response.session.kind, SessionKind::Sign);
            assert_eq!(response.session.value, Some(Value::String("tx".to_string())));
            response.session.id
        }
        other => panic!("session_create answered {:?}", other),
    };
    assert_eq!(state.validate_group_and_session(group_id, session_id), Ok(()));
    assert_eq!(notes.len(), 1);
    match &notes[0] {
        Notification::Group { group_id: to, filter, method, message } => {
            assert_eq!(*to, group_id);
            assert_eq!(*filter, vec![A]);
            assert_eq!(method, "session_created");
            match message {
                Message::SessionCreated(shown) => {
                    assert_eq!(shown.group.id, group_id);
                    assert_eq!(shown.group.params, Parameters::new(2, 1).unwrap());
                    assert!(shown.group.clients.is_empty());
                    assert_eq!(shown.session.id, session_id);
                    assert_eq!(shown.session.kind, SessionKind::Sign);
                    assert_eq!(shown.session.value, Some(Value::String("tx".to_string())));
                }
                other => panic!("the notification carries {:?}", other),
            }
        }
        other => panic!("session_create left {:?}", other),
    }
}

#[test]
fn session_create_needs_the_group() {
    let mut state = State::new();
    let handler = ServiceHandler::new();
    let mut notes = Vec::new();
    let request =
        Request::SessionCreate(SessionCreateRequest { group_id: G, kind: SessionKind::Keygen, value: None });
    let answer = handler.handle(request, &mut state, &mut notes, A);
    assert_eq!(
        answer.unwrap_err(),
        Error::InvalidParams {
            data: "group `00000000-0000-0000-0000-000000000100` not found".to_string()
        }
    );
    assert!(notes.is_empty());
}

#[test]
fn keygen_session_is_ready_with_the_last_party() {
    let mut state = State::new();
    let handler = ServiceHandler::new();
    let group_id = create_group(&mut state, A, 2, 1);
    let session_id = create_session(&mut state, A, group_id, SessionKind::Keygen);
    let mut notes = Vec::new();
    handler
        .handle(Request::GroupJoin(GroupJoinRequest { group_id }), &mut state, &mut notes, B)
        .unwrap();

    // B signs up first and gets party number 1; nobody is told anything.
    let request = Request::SessionSignup(SessionSignupRequest { group_id, session_id });
    assert!(request.is_admissible(&state, B));
    match handler.handle(request, &mut state, &mut notes, B) {
        Ok(Some(Response::SessionSignup(response))) => {
            assert_eq!(response.party_number, 1);
            assert_eq!(response.session.id, session_id);
            assert_eq!(response.session.kind, SessionKind::Keygen);
        }
        other => panic!("session_signup answered {:?}", other),
    }
    assert!(notes.is_empty());

    // A signs up too, gets party number 2, and the group is told.
    let request = Request::SessionSignup(SessionSignupRequest { group_id, session_id });
    match handler.handle(request, &mut state, &mut notes, A) {
        Ok(Some(Response::SessionSignup(response))) => assert_eq!(response.party_number, 2),
        other => panic!("session_signup answered {:?}", other),
    }
    assert_eq!(notes.len(), 1);
    match &notes[0] {
        Notification::Group { group_id: to, filter, method, message } => {
            assert_eq!(*to, group_id);
            assert!(filter.is_empty());
            assert_eq!(method, "session_ready");
            match message {
                Message::SessionReady(shown) => {
                    assert_eq!(shown.group.id, group_id);
                    assert_eq!(shown.session.id, session_id);
                    assert!(shown.session.party_signups.is_empty());
                }
                other => panic!("the notification carries {:?}", other),
            }
        }
        other => panic!("session_signup left {:?}", other),
    }
}

#[test]
fn a_party_beyond_a_full_keygen_session_is_taken_without_a_second_ready() {
    let mut state = State::new();
    let handler = ServiceHandler::new();
    let group_id = create_group(&mut state, A, 2, 1);
    let session_id = create_session(&mut state, A, group_id, SessionKind::Keygen);
    let mut ready = 0;
    for (client, party) in [(A, 1u16), (B, 2), (C, 3), (0xd, 4)] {
        let mut notes = Vec::new();
        let request = Request::SessionSignup(SessionSignupRequest { group_id, session_id });
        match handler.handle(request, &mut state, &mut notes, client) {
            Ok(Some(Response::SessionSignup(response))) => {
                assert_eq!(response.party_number, party)
            }
            other => panic!("session_signup answered {:?}", other),
        }
        ready += notes.len();
        assert_eq!(notes.len(), if party == 2 { 1 } else { 0 });
    }
    assert_eq!(ready, 1);
    assert_eq!(
        state.get_client_ids_from_session(&group_id, &session_id),
        Ok(vec![A, B, C, 0xd])
    );
}

#[test]
fn session_signup_needs_group_and_session() {
    let mut state = State::new();
    let handler = ServiceHandler::new();
    let group_id = create_group(&mut state, A, 2, 1);
    let mut notes = Vec::new();
    let request = Request::SessionSignup(SessionSignupRequest { group_id: G, session_id: 1 });
    assert_eq!(
        handler.handle(request, &mut state, &mut notes, A).unwrap_err(),
        Error::InvalidParams {
            data: "group `00000000-0000-0000-0000-000000000100` not found".to_string()
        }
    );
    let request = Request::SessionSignup(SessionSignupRequest { group_id, session_id: 1 });
    let expected = mpc_manager::state::StateError::SessionNotFound(1, group_id).to_string();
    assert_eq!(
        handler.handle(request, &mut state, &mut notes, A).unwrap_err(),
        Error::InvalidParams { data: expected }
    );
    assert!(notes.is_empty());
}

#[test]
fn session_login_collision() {
    let mut state = State::new();
    let handler = ServiceHandler::new();
    let group_id = create_group(&mut state, A, 3, 1);
    let session_id = create_session(&mut state, A, group_id, SessionKind::Keygen);
    let mut notes = Vec::new();
    let request = Request::SessionSignup(SessionSignupRequest { group_id, session_id });
    handler.handle(request, &mut state, &mut notes, A).unwrap();

    let request =
        Request::SessionLogin(SessionLoginRequest { group_id, session_id, party_number: 1 });
    assert!(request.is_admissible(&state, C));
    match handler.serve(request, &mut state, &mut notes, C) {
        Some(Err(Error::InvalidParams { data })) => {
            assert!(data.contains("party number '1' is already occupied by another party"));
            assert_eq!(data, "party number '1' is already occupied by another party");
        }
        other => panic!("session_login answered {:?}", other),
    }
    assert!(notes.is_empty());
    assert_eq!(state.get_client_ids_from_session(&group_id, &session_id), Ok(vec![A]));
}

#[test]
fn session_login_tells_when_the_session_is_ready() {
    let mut state = State::new();
    let handler = ServiceHandler::new();
    let group_id = create_group(&mut state, A, 3, 1);
    let session_id = create_session(&mut state, A, group_id, SessionKind::Sign);
    let mut notes = Vec::new();
    let request =
        Request::SessionLogin(SessionLoginRequest { group_id, session_id, party_number: 3 });
    match handler.handle(request, &mut state, &mut notes, A) {
        Ok(Some(Response::SessionLogin(response))) => assert_eq!(response.session.id, session_id),
        other => panic!("session_login answered {:?}", other),
    }
    assert!(notes.is_empty());
    let request =
        Request::SessionLogin(SessionLoginRequest { group_id, session_id, party_number: 1 });
    handler.handle(request, &mut state, &mut notes, B).unwrap();
    assert_eq!(notes.len(), 1);
    assert!(matches!(
        &notes[0],
        Notification::Group { method, filter, .. } if method == "session_ready" && filter.is_empty()
    ));
    assert_eq!(state.get_client_ids_from_session(&group_id, &session_id), Ok(vec![B, A]));
}

#[test]
fn a_login_with_party_number_zero_is_not_admissible() {
    let state = State::new();
    let request =
        Request::SessionLogin(SessionLoginRequest { group_id: G, session_id: 1, party_number: 0 });
    assert!(!request.is_admissible(&state, A));
    let request =
        Request::SessionLogin(SessionLoginRequest { group_id: G, session_id: 1, party_number: 1 });
    assert!(request.is_admissible(&state, A));
    let request = Request::GroupJoin(GroupJoinRequest { group_id: G });
    assert!(request.is_admissible(&state, A));
}

fn readied(state: &mut State) -> (u128, u128) {
    let handler = ServiceHandler::new();
    let group_id = create_group(state, A, 2, 1);
    let session_id = create_session(state, A, group_id, SessionKind::Keygen);
    let mut notes = Vec::new();
    handler
        .handle(Request::GroupJoin(GroupJoinRequest { group_id }), state, &mut notes, B)
        .unwrap();
    for client in [A, B] {
        let request = Request::SessionSignup(SessionSignupRequest { group_id, session_id });
        handler.handle(request, state, &mut notes, client).unwrap();
    }
    (group_id, session_id)
}

#[test]
fn session_message_to_one_party_is_relayed() {
    let mut state = State::new();
    let handler = ServiceHandler::new();
    let (group_id, session_id) = readied(&mut state);
    let mut notes = Vec::new();
    let request = Request::SessionMessage(SessionMessageRequest {
        group_id,
        session_id,
        receiver: Some(2),
        message: Value::String("hi".to_string()),
    });
    let answer = handler.serve(request, &mut state, &mut notes, A);
    assert!(answer.is_none());
    assert_eq!(notes.len(), 1);
    match &notes[0] {
        Notification::Relay { method, messages } => {
            assert_eq!(method, "session_message");
            assert_eq!(messages.len(), 1);
            assert_eq!(messages[0].0, B);
            match &messages[0].1 {
                Message::SessionMessage(sent) => {
                    assert_eq!(sent.group_id, group_id);
                    assert_eq!(sent.session_id, session_id);
                    assert_eq!(sent.sender, 1);
                    assert_eq!(sent.message, Value::String("hi".to_string()));
                }
                other => panic!("the relay carries {:?}", other),
            }
        }
        other => panic!("session_message left {:?}", other),
    }
}

#[test]
fn session_message_without_receiver_goes_to_the_session() {
    let mut state = State::new();
    let handler = ServiceHandler::new();
    let (group_id, session_id) = readied(&mut state);
    let mut notes = Vec::new();
    let request = Request::SessionMessage(SessionMessageRequest {
        group_id,
        session_id,
        receiver: None,
        message: Value::Bool(true),
    });
    let answer = handler.handle(request, &mut state, &mut notes, B);
    assert!(matches!(answer, Ok(None)));
    assert_eq!(notes.len(), 1);
    match &notes[0] {
        Notification::Session { group_id: g, session_id: s, filter, method, message } => {
            assert_eq!(*g, group_id);
            assert_eq!(*s, session_id);
            assert!(filter.is_empty());
            assert_eq!(method, "session_message");
            match message {
                Message::SessionMessage(sent) => {
                    assert_eq!(sent.sender, 2);
                    assert_eq!(sent.message, Value::Bool(true));
                }
                other => panic!("the notification carries {:?}", other),
            }
        }
        other => panic!("session_message left {:?}", other),
    }
}

#[test]
fn session_message_that_cannot_be_forwarded_leaves_nothing_and_has_no_response() {
    let mut state = State::new();
    let handler = ServiceHandler::new();
    let (group_id, session_id) = readied(&mut state);
    let cases = [
        // The caller is no party of the session.
        (C, group_id, session_id, None),
        // The receiver is no party of the session.
        (A, group_id, session_id, Some(3u16)),
        // The session is not there.
        (A, group_id, 12345u128, None),
        // The group is not there.
        (A, 12345u128, session_id, Some(2)),
    ];
    for (client, group_id, session_id, receiver) in cases {
        let mut notes = Vec::new();
        let request = Request::SessionMessage(SessionMessageRequest {
            group_id,
            session_id,
            receiver,
            message: Value::Null,
        });
        assert!(handler.serve(request, &mut state, &mut notes, client).is_none());
        assert!(notes.is_empty());
    }
}
