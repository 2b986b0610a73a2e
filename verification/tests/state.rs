use mpc_manager::state::parameters::Parameters;
use mpc_manager::state::session::{SessionError, SessionKind};
use mpc_manager::state::{LoginError, State, StateError};
use serde_json::Value;
use tokio::sync::mpsc::unbounded_channel;

const A: u128 = 0xa;
const B: u128 = 0xb;
const C: u128 = 0xc;
const G: u128 = 0x100;

fn two_of_two() -> Parameters {
    Parameters::new(2, 1).unwrap()
}

fn sorted(mut ids: Vec<u128>) -> Vec<u128> {
    ids.sort();
    ids
}

#[test]
fn new_state_is_empty() {
    let state = State::new();
    assert!(state.group_ids().is_empty());
    assert!(!state.has_client(&A));
    assert!(state.get_client(&A).is_none());
    let state = State::default();
    assert!(state.group_ids().is_empty());
}

#[test]
fn clients_are_added_found_and_dropped() {
    let mut state = State::new();
    let (tx, mut rx) = unbounded_channel::<String>();
    state.add_client(A, tx);
    assert!(state.has_client(&A));
    assert!(!state.has_client(&B));
    state.get_client(&A).unwrap().send("hello".to_string()).unwrap();
    assert_eq!(rx.try_recv().unwrap(), "hello");
    assert!(state.get_client(&B).is_none());
    state.drop_client(A);
    assert!(!state.has_client(&A));
    assert!(state.get_client(&A).is_none());
}

#[test]
fn add_group_returns_a_bare_copy() {
    let mut state = State::new();
    let group = state.add_group(two_of_two());
    assert_eq!(group.params, two_of_two());
    assert!(group.clients.is_empty());
    assert!(group.sessions.is_empty());
    assert_eq!((group.id >> 76) & 0xf, 4);
    assert_eq!(state.group_ids(), vec![group.id]);
    assert_eq!(state.get_client_ids_from_group(&group.id), Ok(vec![]));
}

#[test]
fn join_group_until_full() {
    let mut state = State::new();
    state.insert_group(G, two_of_two());
    let joined = state.join_group(G, A).unwrap();
    assert_eq!(joined.id, G);
    assert_eq!(joined.params, two_of_two());
    assert!(joined.clients.is_empty());
    assert!(state.join_group(G, B).is_ok());
    let refused = state.join_group(G, C).unwrap_err();
    assert_eq!(refused, StateError::GroupIsFull(G));
    assert_eq!(
        refused.to_string(),
        "group '00000000-0000-0000-0000-000000000100' is full"
    );
    assert_eq!(sorted(state.get_client_ids_from_group(&G).unwrap()), vec![A, B]);
}

#[test]
fn join_group_that_is_not_there() {
    let mut state = State::new();
    assert_eq!(state.join_group(G, A).unwrap_err(), StateError::GroupNotFound(G));
    assert!(state.group_ids().is_empty());
}

#[test]
fn join_group_again_changes_nothing() {
    let mut state = State::new();
    state.insert_group(G, Parameters::new(3, 1).unwrap());
    assert!(state.join_group(G, A).is_ok());
    assert!(state.join_group(G, A).is_ok());
    assert_eq!(state.get_client_ids_from_group(&G), Ok(vec![A]));
}

#[test]
fn drop_client_leaves_every_group_and_removes_the_empty_ones() {
    let mut state = State::new();
    state.insert_group(1, two_of_two());
    state.insert_group(2, two_of_two());
    state.insert_group(3, two_of_two());
    state.join_group(1, A).unwrap();
    state.join_group(2, A).unwrap();
    state.join_group(2, B).unwrap();
    state.join_group(3, B).unwrap();
    let (tx, _rx) = unbounded_channel::<String>();
    state.add_client(A, tx);

    state.drop_client(A);

    // The group of which A was the only member is gone.
    assert_eq!(sorted(state.group_ids()), vec![2, 3]);
    assert_eq!(state.get_client_ids_from_group(&1), Err(StateError::GroupNotFound(1)));
    // No group has A among its members.
    assert_eq!(state.get_client_ids_from_group(&2), Ok(vec![B]));
    assert_eq!(state.get_client_ids_from_group(&3), Ok(vec![B]));
    assert!(!state.has_client(&A));
}

#[test]
fn drop_client_removes_groups_that_never_had_a_member() {
    let mut state = State::new();
    state.insert_group(1, two_of_two());
    state.insert_group(2, two_of_two());
    state.join_group(2, B).unwrap();
    state.drop_client(A);
    assert_eq!(state.group_ids(), vec![2]);
}

#[test]
fn add_session_needs_the_group() {
    let mut state = State::new();
    let missing = state.add_session(G, SessionKind::Keygen, None).unwrap_err();
    assert_eq!(missing, StateError::GroupNotFound(G));
    state.insert_group(G, two_of_two());
    let (group, session) = state
        .add_session(G, SessionKind::Sign, Some(Value::String("tx".to_string())))
        .unwrap();
    assert_eq!(group.id, G);
    assert_eq!(group.params, two_of_two());
    assert_eq!(session.kind, SessionKind::Sign);
    assert_eq!(session.value, Some(Value::String("tx".to_string())));
    assert_eq!(state.validate_group_and_session(G, session.id), Ok(()));
    assert_eq!(state.get_client_ids_from_session(&G, &session.id), Ok(vec![]));
}

#[test]
fn lookups_say_what_is_missing() {
    let mut state = State::new();
    assert_eq!(state.validate_group_and_session(G, 5), Err(StateError::GroupNotFound(G)));
    assert_eq!(
        state.get_client_ids_from_session(&G, &5),
        Err(StateError::GroupNotFound(G))
    );
    assert_eq!(
        state.get_client_id_from_party_number(G, 5, 1),
        Err(StateError::GroupNotFound(G))
    );
    assert_eq!(
        state.get_party_number_from_client_id(G, 5, A),
        Err(StateError::GroupNotFound(G))
    );
    state.insert_group(G, two_of_two());
    assert_eq!(
        state.validate_group_and_session(G, 5),
        Err(StateError::SessionNotFound(5, G))
    );
    assert_eq!(
        state.get_client_ids_from_session(&G, &5),
        Err(StateError::SessionNotFound(5, G))
    );
    assert_eq!(
        state.get_client_id_from_party_number(G, 5, 1),
        Err(StateError::SessionNotFound(5, G))
    );
    assert_eq!(
        state.get_party_number_from_client_id(G, 5, A),
        Err(StateError::SessionNotFound(5, G))
    );
    assert_eq!(
        state.signup_session(A, G, 5).unwrap_err(),
        StateError::SessionNotFound(5, G)
    );
    assert_eq!(
        state.login_session(A, G, 5, 1).unwrap_err(),
        LoginError::State(StateError::SessionNotFound(5, G))
    );
    assert_eq!(
        state.signup_session(A, 999, 5).unwrap_err(),
        StateError::GroupNotFound(999)
    );
    assert_eq!(
        state.login_session(A, 999, 5, 1).unwrap_err(),
        LoginError::State(StateError::GroupNotFound(999))
    );
    let (_, session) = state.add_session(G, SessionKind::Keygen, None).unwrap();
    assert_eq!(
        state.get_client_id_from_party_number(G, session.id, 1),
        Err(StateError::PartyNotFound(1))
    );
    assert_eq!(
        state.get_party_number_from_client_id(G, session.id, A),
        Err(StateError::ClientNotFound(A))
    );
}

#[test]
fn signup_session_reports_the_keygen_threshold() {
    let mut state = State::new();
    state.insert_group(G, two_of_two());
    let (_, session) = state.add_session(G, SessionKind::Keygen, None).unwrap();
    let s = session.id;

    let (group, shown, party, reached) = state.signup_session(A, G, s).unwrap();
    assert_eq!(group.id, G);
    assert_eq!(shown.id, s);
    assert_eq!(shown.get_number_of_clients(), 0);
    assert_eq!(party, 1);
    assert!(!reached);

    let (_, _, party, reached) = state.signup_session(B, G, s).unwrap();
    assert_eq!(party, 2);
    assert!(reached);

    // A third party fits in, but the session is not at its threshold then.
    let (_, _, party, reached) = state.signup_session(C, G, s).unwrap();
    assert_eq!(party, 3);
    assert!(!reached);

    assert_eq!(state.get_client_ids_from_session(&G, &s), Ok(vec![A, B, C]));
    assert_eq!(state.get_client_id_from_party_number(G, s, 2), Ok(B));
    assert_eq!(state.get_party_number_from_client_id(G, s, C), Ok(3));
}

#[test]
fn signup_session_reports_the_sign_threshold() {
    let mut state = State::new();
    state.insert_group(G, Parameters::new(3, 1).unwrap());
    let (_, session) = state.add_session(G, SessionKind::Sign, None).unwrap();
    let s = session.id;
    assert!(!state.signup_session(A, G, s).unwrap().3);
    assert!(state.signup_session(B, G, s).unwrap().3);
    assert!(state.signup_session(C, G, s).unwrap().3);
    // A signup that changes nothing reports the threshold as it stands.
    assert!(state.signup_session(A, G, s).unwrap().3);
    assert_eq!(state.signup_session(A, G, s).unwrap().2, 1);
}

#[test]
fn login_session_takes_the_number_or_refuses() {
    let mut state = State::new();
    state.insert_group(G, two_of_two());
    let (_, session) = state.add_session(G, SessionKind::Keygen, None).unwrap();
    let s = session.id;

    let (group, shown, reached) = state.login_session(A, G, s, 2).unwrap();
    assert_eq!(group.id, G);
    assert_eq!(shown.id, s);
    assert!(!reached);
    assert_eq!(
        state.login_session(B, G, s, 2).unwrap_err(),
        LoginError::Session(SessionError::PartyNumberAlreadyOccupied(2))
    );
    let (_, _, reached) = state.login_session(B, G, s, 1).unwrap();
    assert!(reached);
    // A second login of A under another number changes nothing.
    let (_, _, reached) = state.login_session(A, G, s, 9).unwrap();
    assert!(reached);
    assert_eq!(state.get_client_ids_from_session(&G, &s), Ok(vec![B, A]));
    assert_eq!(state.get_party_number_from_client_id(G, s, A), Ok(2));
}

#[test]
fn can_signup_while_there_is_room() {
    let mut state = State::new();
    state.insert_group(G, two_of_two());
    let (_, session) = state.add_session(G, SessionKind::Keygen, None).unwrap();
    assert!(state.can_signup(A, G, session.id));
    assert!(state.can_signup(A, G, 12345));
    assert!(state.can_signup(A, 999, session.id));
}

#[test]
fn insert_group_replaces_a_group_of_the_same_id() {
    let mut state = State::new();
    state.insert_group(G, two_of_two());
    state.join_group(G, A).unwrap();
    let group = state.insert_group(G, Parameters::new(5, 2).unwrap());
    assert_eq!(group.params, Parameters::new(5, 2).unwrap());
    assert_eq!(state.get_client_ids_from_group(&G), Ok(vec![]));
    assert_eq!(state.group_ids(), vec![G]);
}
