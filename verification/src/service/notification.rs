//! Notifications that a request leaves behind for the peers of its caller.

use super::session_service::{
    SessionCreatedNotification, SessionMessageNotification, SessionReadyNotification,
};
use crate::state::group::GroupId;
use crate::state::session::SessionId;
use crate::state::ClientId;
use vstd::prelude::*;

verus! {

/// What a notification carries to its recipients.
#[derive(Debug)]
pub enum Message {
    /// A session was created in the group.
    SessionCreated(SessionCreatedNotification),
    /// A session has all the parties that it needs.
    SessionReady(SessionReadyNotification),
    /// A party of a session sends a message to another, or to all others.
    SessionMessage(SessionMessageNotification),
}

/// Notification sent by the server to multiple connected clients.
#[derive(Debug)]
pub enum Notification {
    /// Send to all the clients in a group.
    Group {
        /// The group identifier.
        group_id: GroupId,
        /// Ignore these clients.
        filter: Vec<ClientId>,
        /// The method name.
        method: String,
        /// Message to send to the clients.
        message: Message,
    },
    /// Sends to all clients in a session.
    Session {
        /// The group identifier.
        group_id: GroupId,
        /// The session identifier.
        session_id: SessionId,
        /// Ignore these clients.
        filter: Vec<ClientId>,
        /// The method name.
        method: String,
        /// Message to send to the clients.
        message: Message,
    },
    /// Relay messages to specific clients.
    ///
    /// Used for relaying peer to peer messages.
    Relay {
        /// The method name.
        method: String,
        /// Mapping of client connection identifiers to messages.
        messages: Vec<(ClientId, Message)>,
    },
}

} // verus!
