//! The lifecycle of one connection: `Admitted`, then `Active` while its inbound
//! relay and outbound delivery tasks run, `Closing` once either task ends (the
//! other is cancelled and the connection is removed), `Terminated` when the
//! departure has been announced. The runtime that owns the socket performs the
//! actions and reports the events.

use vstd::prelude::*;

use crate::protocol::{inbound_chat, ChatPayload};

verus! {

/// Where a connection stands.
#[derive(Debug, Clone, Copy, PartialEq, Eq, Structural)]
pub enum SessionPhase {
    Admitted,
    Active,
    Closing,
    Terminated,
}

/// A frame read from the connection.
#[derive(Debug, PartialEq, Eq)]
pub enum InboundFrame {
    /// A text frame, with the chat envelope decoded from it when it was one.
    Text { raw: String, decoded: Option<ChatPayload> },
    /// A ping, answered by the transport itself.
    Ping,
    /// Any other frame that carries nothing for the room.
    Other,
    /// The peer closed the connection.
    Close,
    /// Reading from the connection failed.
    ReadError,
}

/// What happened to a connection.
#[derive(Debug, PartialEq, Eq)]
pub enum SessionEvent {
    /// The protocol upgrade completed.
    Upgraded,
    /// The inbound relay read a frame.
    Inbound(InboundFrame),
    /// The outbound delivery task ended: a write failed or its channel closed.
    DeliveryEnded,
    /// The connection was removed and its departure announced.
    CleanedUp,
}

/// What the runtime does next.
#[derive(Debug, PartialEq, Eq)]
pub enum SessionAction {
    /// Nothing.
    Nothing,
    /// Start the inbound relay and the outbound delivery tasks.
    StartTasks,
    /// Relay this chat payload to the other participants.
    Relay(ChatPayload),
    /// The relay ended: cancel the delivery task, then remove the connection.
    CancelDeliveryAndRemove,
    /// The delivery ended: cancel the relay task, then remove the connection.
    CancelRelayAndRemove,
}

/// Whether the frame ends the inbound relay.
pub open spec fn ends_relay(frame: InboundFrame) -> bool {
    frame is Close || frame is ReadError
}

/// The phase after `event` in `phase`.
pub open spec fn next_phase(phase: SessionPhase, event: SessionEvent) -> SessionPhase {
    match (phase, event) {
        (SessionPhase::Admitted, SessionEvent::Upgraded) => SessionPhase::Active,
        (SessionPhase::Active, SessionEvent::Inbound(frame)) => if ends_relay(frame) {
            SessionPhase::Closing
        } else {
            SessionPhase::Active
        },
        (SessionPhase::Active, SessionEvent::DeliveryEnded) => SessionPhase::Closing,
        (SessionPhase::Closing, SessionEvent::CleanedUp) => SessionPhase::Terminated,
        _ => phase,
    }
}

/// Decides the next phase and action of a connection in `phase` on `event`.
/// Only an active connection relays; a text frame that is not a chat envelope is
/// relayed as raw text. Whichever task ends first has the other cancelled; events
/// that do not fit the phase change nothing.
pub fn step(phase: SessionPhase, event: SessionEvent) -> (r: (SessionPhase, SessionAction))
    ensures
        r.0 == next_phase(phase, event),
        phase == SessionPhase::Admitted && event == SessionEvent::Upgraded ==> r.1
            == SessionAction::StartTasks,
        phase == SessionPhase::Active ==> match event {
            SessionEvent::Inbound(InboundFrame::Text { raw, decoded }) => match decoded {
                Some(p) => r.1 matches SessionAction::Relay(q) && q@ == p@,
                None => r.1 matches SessionAction::Relay(q) && q@ == (
                    crate::protocol::UNKNOWN_SENDER@,
                    raw@,
                    0i64,
                ),
            },
            SessionEvent::Inbound(frame) => if ends_relay(frame) {
                r.1 == SessionAction::CancelDeliveryAndRemove
            } else {
                r.1 == SessionAction::Nothing
            },
            SessionEvent::DeliveryEnded => r.1 == SessionAction::CancelRelayAndRemove,
            _ => r.1 == SessionAction::Nothing,
        },
        phase != SessionPhase::Active && !(phase == SessionPhase::Admitted && event
            == SessionEvent::Upgraded) ==> r.1 == SessionAction::Nothing,
{
    match phase {
        SessionPhase::Admitted => match event {
            SessionEvent::Upgraded => (SessionPhase::Active, SessionAction::StartTasks),
            _ => (phase, SessionAction::Nothing),
        },
        SessionPhase::Active => match event {
            SessionEvent::Inbound(frame) => match frame {
                InboundFrame::Text { raw, decoded } => (
                    SessionPhase::Active,
                    SessionAction::Relay(inbound_chat(decoded, raw)),
                ),
                InboundFrame::Close => (
                    SessionPhase::Closing,
                    SessionAction::CancelDeliveryAndRemove,
                ),
                InboundFrame::ReadError => (
                    SessionPhase::Closing,
                    SessionAction::CancelDeliveryAndRemove,
                ),
                _ => (SessionPhase::Active, SessionAction::Nothing),
            },
            SessionEvent::DeliveryEnded => (
                SessionPhase::Closing,
                SessionAction::CancelRelayAndRemove,
            ),
            _ => (phase, SessionAction::Nothing),
        },
        SessionPhase::Closing => match event {
            SessionEvent::CleanedUp => (SessionPhase::Terminated, SessionAction::Nothing),
            _ => (phase, SessionAction::Nothing),
        },
        SessionPhase::Terminated => (phase, SessionAction::Nothing),
    }
}

} // verus!
