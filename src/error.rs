//! Error types of the chat room.

use vstd::prelude::*;

verus! {

/// Rejections raised when a value object is built from an invalid string.
#[derive(Debug, Clone, PartialEq, Eq)]
pub enum ValueObjectError {
    /// The client identifier is empty.
    ClientIdEmpty,
    /// The client identifier has more than `max` characters.
    ClientIdTooLong { max: usize, actual: usize },
    /// The room identifier is empty.
    RoomIdEmpty,
    /// The room identifier is not a UUID.
    RoomIdInvalidFormat(String),
    /// The message content is empty.
    MessageContentEmpty,
    /// The message content has more than `max` characters.
    MessageContentTooLong { max: usize, actual: usize },
}

/// Capacity violations of the room aggregate.
#[derive(Debug, Clone, PartialEq, Eq)]
pub enum RoomError {
    /// The room already holds `capacity` participants.
    CapacityExceeded { capacity: usize, current: usize },
    /// The message history already holds `capacity` messages.
    MessageCapacityExceeded { capacity: usize, current: usize },
}

/// Failures of the membership store.
#[derive(Debug, Clone, PartialEq, Eq)]
pub enum RepositoryError {
    /// A connection is already registered under this identity.
    ParticipantAlreadyExists(String),
    /// The room refused the participant.
    ParticipantNotFound(String),
    /// No connection is registered under this identity.
    ClientInfoNotFound(String),
    /// The room refused the message.
    RoomNotFound,
}

/// Failures of delivering an event to connections.
#[derive(Debug, Clone, PartialEq, Eq)]
pub enum MessagePushError {
    /// No connection is registered under this identity.
    ClientNotFound(String),
    /// The event could not be handed to any target.
    PushFailed(String),
}

/// Reasons a connection is not admitted.
#[derive(Debug, Clone, PartialEq, Eq)]
pub enum ConnectError {
    /// A connection with this identity is already registered.
    DuplicateClientId(String),
    /// The room is full.
    RoomCapacityExceeded,
}

/// Reasons a chat message is not relayed.
#[derive(Debug, Clone, PartialEq, Eq)]
pub enum SendMessageError {
    /// The message content is empty or too long.
    InvalidContent(ValueObjectError),
    /// The room's message history is full.
    MessageCapacityExceeded,
    /// No other participant could be reached.
    BroadcastFailed(String),
}

/// Reasons a room detail request fails.
#[derive(Debug, Clone, PartialEq, Eq)]
pub enum GetRoomDetailError {
    /// No room has the requested identifier.
    RoomNotFound,
    /// The store could not be read.
    RepositoryError,
}

} // verus!
