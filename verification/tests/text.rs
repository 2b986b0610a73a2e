use mpc_manager::service::group_service::GroupMethod;
use mpc_manager::service::session_service::{SessionEvent, SessionMethod};
use mpc_manager::state::group::GroupError;
use mpc_manager::state::session::{SessionError, SessionKind};
use mpc_manager::state::{LoginError, State, StateError};
use mpc_manager::text::{decimal, same_text};

const ID: u128 = 0xa1a2a3a4b1b2c1c2d1d2d3d4d5d6d7d8;

#[test]
fn decimal_writes_numbers_without_leading_zeros() {
    assert_eq!(decimal(0), "0");
    assert_eq!(decimal(7), "7");
    assert_eq!(decimal(10), "10");
    assert_eq!(decimal(109), "109");
    assert_eq!(decimal(65535), "65535");
}

#[test]
fn same_text_compares_characters() {
    assert!(same_text("group", "group"));
    assert!(same_text("", ""));
    assert!(!same_text("group", "groups"));
    assert!(!same_text("group", "Group"));
}

#[test]
fn ids_are_written_as_hyphenated_lower_case_hex() {
    assert_eq!(
        StateError::GroupNotFound(ID).to_string(),
        "group `a1a2a3a4-b1b2-c1c2-d1d2-d3d4d5d6d7d8` not found"
    );
    assert_eq!(
        StateError::GroupNotFound(0).to_string(),
        "group `00000000-0000-0000-0000-000000000000` not found"
    );
    assert_eq!(
        StateError::GroupNotFound(0x1f).to_string(),
        "group `00000000-0000-0000-0000-00000000001f` not found"
    );
    assert_eq!(
        StateError::ClientNotFound(u128::MAX).to_string(),
        "client id `ffffffff-ffff-ffff-ffff-ffffffffffff` not found"
    );
}

#[test]
fn state_error_texts() {
    assert_eq!(
        StateError::GroupIsFull(ID).to_string(),
        "group 'a1a2a3a4-b1b2-c1c2-d1d2-d3d4d5d6d7d8' is full"
    );
    assert_eq!(
        StateError::SessionNotFound(1, ID).to_string(),
        "session `00000000-0000-0000-0000-000000000001` fro group `a1a2a3a4-b1b2-c1c2-d1d2-d3d4d5d6d7d8 not found"
    );
    assert_eq!(StateError::PartyNotFound(12).to_string(), "party `12` not found");
    assert_eq!(
        StateError::ClientNotFound(ID).to_string(),
        "client id `a1a2a3a4-b1b2-c1c2-d1d2-d3d4d5d6d7d8` not found"
    );
}

#[test]
fn session_and_group_error_texts() {
    assert_eq!(
        SessionError::PartyNumberAlreadyOccupied(1).to_string(),
        "party number '1' is already occupied by another party"
    );
    assert_eq!(GroupError::GroupFull.to_string(), "group is full");
}

#[test]
fn login_error_texts_are_those_of_what_it_wraps() {
    assert_eq!(
        LoginError::State(StateError::PartyNotFound(3)).to_string(),
        "party `3` not found"
    );
    assert_eq!(
        LoginError::Session(SessionError::PartyNumberAlreadyOccupied(300)).to_string(),
        "party number '300' is already occupied by another party"
    );
}

#[test]
fn fresh_ids_are_random_version_four() {
    let state = State::new();
    let a = state.new_client_id();
    let b = state.new_client_id();
    assert_ne!(a, b);
    for id in [a, b] {
        assert_eq!((id >> 76) & 0xf, 4);
        assert_eq!((id >> 62) & 0x3, 2);
    }
}

#[test]
fn method_names_round_trip() {
    assert_eq!(GroupMethod::GroupCreate.to_string(), "group_create");
    assert_eq!(GroupMethod::GroupJoin.to_string(), "group_join");
    assert_eq!(GroupMethod::from_str("group_create"), Some(GroupMethod::GroupCreate));
    assert_eq!(GroupMethod::from_str("group_join"), Some(GroupMethod::GroupJoin));
    assert_eq!(GroupMethod::from_str("group_leave"), None);
    assert_eq!(GroupMethod::from_str("session_create"), None);

    assert_eq!(SessionMethod::SessionCreate.to_string(), "session_create");
    assert_eq!(SessionMethod::SessionSignup.to_string(), "session_signup");
    assert_eq!(SessionMethod::SessionLogin.to_string(), "session_login");
    assert_eq!(SessionMethod::SessionMessage.to_string(), "session_message");
    assert_eq!(SessionMethod::from_str("session_create"), Some(SessionMethod::SessionCreate));
    assert_eq!(SessionMethod::from_str("session_signup"), Some(SessionMethod::SessionSignup));
    assert_eq!(SessionMethod::from_str("session_login"), Some(SessionMethod::SessionLogin));
    assert_eq!(SessionMethod::from_str("session_message"), Some(SessionMethod::SessionMessage));
    assert_eq!(SessionMethod::from_str("session_created"), None);
    assert_eq!(SessionMethod::from_str(""), None);
}

#[test]
fn event_names_round_trip() {
    assert_eq!(SessionEvent::SessionCreated.to_string(), "session_created");
    assert_eq!(SessionEvent::SessionReady.to_string(), "session_ready");
    assert_eq!(SessionEvent::SessionMessage.to_string(), "session_message");
    assert_eq!(SessionEvent::from_str("session_created"), Some(SessionEvent::SessionCreated));
    assert_eq!(SessionEvent::from_str("session_ready"), Some(SessionEvent::SessionReady));
    assert_eq!(SessionEvent::from_str("session_message"), Some(SessionEvent::SessionMessage));
    assert_eq!(SessionEvent::from_str("session_create"), None);
}

#[test]
fn session_kind_names() {
    assert_eq!(SessionKind::from_str("keygen"), Some(SessionKind::Keygen));
    assert_eq!(SessionKind::from_str("sign"), Some(SessionKind::Sign));
    assert_eq!(SessionKind::from_str("Keygen"), None);
    assert_eq!(SessionKind::from_str(""), None);
}
