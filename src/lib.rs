//! A single real-time chat room: validated value objects, the room aggregate,
//! the membership store that keeps the connection registry and the aggregate in
//! step, best-effort broadcast, the event envelopes sent to participants, and the
//! per-connection session lifecycle.

pub mod entity;
pub mod error;
pub mod event_log;
pub mod membership;
pub mod protocol;
pub mod session;
pub mod value_object;

pub use error::{
    ConnectError, GetRoomDetailError, MessagePushError, RepositoryError, RoomError,
    SendMessageError, ValueObjectError,
};
pub use entity::{ChatMessage, Participant, Room, ROOM_MAX_MESSAGES, ROOM_MAX_PARTICIPANTS};
pub use value_object::{ClientId, MessageContent, RoomId, Timestamp};
pub use protocol::{
    encode_chat, encode_participant_joined, encode_participant_left, encode_room_connected,
    frame_chat, frame_participant, frame_participant_joined, frame_participant_left,
    frame_room_connected, inbound_chat, ChatPayload, ParticipantInfo, UNKNOWN_SENDER,
};
pub use membership::InMemoryRoomRepository;
pub use session::{step, InboundFrame, SessionAction, SessionEvent, SessionPhase};
