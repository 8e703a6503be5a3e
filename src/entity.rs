//! The room aggregate: its participants and its bounded message history.

use vstd::prelude::*;

use crate::error::RoomError;
use crate::value_object::{ClientId, MessageContent, RoomId, Timestamp};

verus! {

/// Default bound on the number of participants of a room.
pub const ROOM_MAX_PARTICIPANTS: usize = 100;

/// Default bound on the number of messages a room keeps.
pub const ROOM_MAX_MESSAGES: usize = 1000;

/// A participant of the room: who, and since when.
#[derive(Debug, PartialEq, Eq)]
pub struct Participant {
    pub id: ClientId,
    pub connected_at: Timestamp,
}

impl View for Participant {
    type V = (Seq<char>, i64);

    open spec fn view(&self) -> (Seq<char>, i64) {
        (self.id@, self.connected_at@)
    }
}

impl Clone for Participant {
    fn clone(&self) -> (r: Self)
        ensures
            r@ == self@,
    {
        Participant { id: self.id.clone(), connected_at: self.connected_at }
    }
}

impl Participant {
    /// The participant `id`, present since `connected_at`.
    pub fn new(id: ClientId, connected_at: Timestamp) -> (r: Participant)
        ensures
            r@ == (id@, connected_at@),
    {
        Participant { id, connected_at }
    }
}

/// A chat message kept in the room's history.
#[derive(Debug, PartialEq, Eq)]
pub struct ChatMessage {
    pub from: ClientId,
    pub content: MessageContent,
    pub timestamp: Timestamp,
}

impl View for ChatMessage {
    type V = (Seq<char>, Seq<char>, i64);

    open spec fn view(&self) -> (Seq<char>, Seq<char>, i64) {
        (self.from@, self.content@, self.timestamp@)
    }
}

impl Clone for ChatMessage {
    fn clone(&self) -> (r: Self)
        ensures
            r@ == self@,
    {
        ChatMessage {
            from: self.from.clone(),
            content: self.content.clone(),
            timestamp: self.timestamp,
        }
    }
}

impl ChatMessage {
    /// The message `content` sent by `from` at `timestamp`.
    pub fn new(from: ClientId, content: MessageContent, timestamp: Timestamp) -> (r: ChatMessage)
        ensures
            r@ == (from@, content@, timestamp@),
    {
        ChatMessage { from, content, timestamp }
    }
}

/// The views of a sequence of participants, in order.
pub open spec fn participant_views(ps: Seq<Participant>) -> Seq<(Seq<char>, i64)> {
    ps.map_values(|p: Participant| p@)
}

/// The identities of a sequence of participants, in order.
pub open spec fn participant_ids(ps: Seq<Participant>) -> Seq<Seq<char>> {
    ps.map_values(|p: Participant| p.id@)
}

/// The views of a sequence of messages, in order.
pub open spec fn message_views(ms: Seq<ChatMessage>) -> Seq<(Seq<char>, Seq<char>, i64)> {
    ms.map_values(|m: ChatMessage| m@)
}

/// Index of the first participant of `ps` whose identity is `id`, if any.
pub open spec fn first_index_of(ps: Seq<Participant>, id: Seq<char>, i: int) -> bool {
    0 <= i < ps.len() && ps[i].id@ == id && forall|j: int| 0 <= j < i ==> ps[j].id@ != id
}

/// The room aggregate: identifier, creation time, participants in order of
/// arrival and the message history, each bounded by its capacity.
#[derive(Debug)]
pub struct Room {
    pub id: RoomId,
    pub created_at: Timestamp,
    pub participants: Vec<Participant>,
    pub messages: Vec<ChatMessage>,
    pub participant_capacity: usize,
    pub message_capacity: usize,
}

impl Room {
    /// Neither list exceeds its capacity.
    pub open spec fn wf(&self) -> bool {
        &&& self.participants@.len() <= self.participant_capacity
        &&& self.messages@.len() <= self.message_capacity
    }

    /// `self` and `o` hold the same values.
    pub open spec fn same_as(&self, o: &Room) -> bool {
        &&& self.id@ == o.id@
        &&& self.created_at == o.created_at
        &&& participant_views(self.participants@) == participant_views(o.participants@)
        &&& message_views(self.messages@) == message_views(o.messages@)
        &&& self.participant_capacity == o.participant_capacity
        &&& self.message_capacity == o.message_capacity
    }

    /// An empty room with the default capacities.
    pub fn new(id: RoomId, created_at: Timestamp) -> (r: Room)
        ensures
            r.wf(),
            r.id@ == id@,
            r.created_at == created_at,
            r.participants@.len() == 0,
            r.messages@.len() == 0,
            r.participant_capacity == ROOM_MAX_PARTICIPANTS,
            r.message_capacity == ROOM_MAX_MESSAGES,
    {
        Room::with_capacity(id, created_at, ROOM_MAX_PARTICIPANTS, ROOM_MAX_MESSAGES)
    }

    /// An empty room with the given capacities.
    pub fn with_capacity(
        id: RoomId,
        created_at: Timestamp,
        participant_capacity: usize,
        message_capacity: usize,
    ) -> (r: Room)
        ensures
            r.wf(),
            r.id@ == id@,
            r.created_at == created_at,
            r.participants@.len() == 0,
            r.messages@.len() == 0,
            r.participant_capacity == participant_capacity,
            r.message_capacity == message_capacity,
    {
        Room {
            id,
            created_at,
            participants: Vec::new(),
            messages: Vec::new(),
            participant_capacity,
            message_capacity,
        }
    }

    /// Appends `participant`, unless the room is full.
    pub fn add_participant(&mut self, participant: Participant) -> (r: Result<(), RoomError>)
        requires
            old(self).wf(),
        ensures
            final(self).wf(),
            old(self).participants@.len() >= old(self).participant_capacity ==> {
                &&& r == Err::<(), RoomError>(
                    RoomError::CapacityExceeded {
                        capacity: old(self).participant_capacity,
                        current: old(self).participants@.len() as usize,
                    },
                )
                &&& *final(self) == *old(self)
            },
            old(self).participants@.len() < old(self).participant_capacity ==> {
                &&& r is Ok
                &&& final(self).participants@ == old(self).participants@.push(participant)
                &&& final(self).messages == old(self).messages
                &&& final(self).id == old(self).id
                &&& final(self).created_at == old(self).created_at
                &&& final(self).participant_capacity == old(self).participant_capacity
                &&& final(self).message_capacity == old(self).message_capacity
            },
    {
        let current = self.participants.len();
        if current >= self.participant_capacity {
            return Err(
                RoomError::CapacityExceeded { capacity: self.participant_capacity, current },
            );
        }
        self.participants.push(participant);
        Ok(())
    }

    /// Position of the first participant named `id`, if any.
    pub fn find_participant(&self, id: &ClientId) -> (r: Option<usize>)
        ensures
            r matches Some(i) ==> first_index_of(self.participants@, id@, i as int),
            r is None ==> !participant_ids(self.participants@).contains(id@),
    {
        let mut i: usize = 0;
        while i < self.participants.len()
            invariant
                0 <= i <= self.participants@.len(),
                forall|j: int| 0 <= j < i ==> self.participants@[j].id@ != id@,
            decreases self.participants@.len() - i,
        {
            if self.participants[i].id == *id {
                return Some(i);
            }
            i = i + 1;
        }
        proof {
            if participant_ids(self.participants@).contains(id@) {
                let k = choose|k: int|
                    0 <= k < participant_ids(self.participants@).len()
                        && participant_ids(self.participants@)[k] == id@;
                assert(self.participants@[k].id@ == id@);
            }
        }
        None
    }

    /// Removes the participant named `id`; a room without one is left as it is.
    pub fn remove_participant(&mut self, id: &ClientId)
        requires
            old(self).wf(),
        ensures
            final(self).wf(),
            !participant_ids(old(self).participants@).contains(id@) ==> *final(self) == *old(
                self,
            ),
            participant_ids(old(self).participants@).contains(id@) ==> exists|i: int|
                first_index_of(old(self).participants@, id@, i)
                    && final(self).participants@ == old(self).participants@.remove(i),
            final(self).messages == old(self).messages,
            final(self).id == old(self).id,
            final(self).created_at == old(self).created_at,
            final(self).participant_capacity == old(self).participant_capacity,
            final(self).message_capacity == old(self).message_capacity,
    {
        match self.find_participant(id) {
            Some(i) => {
                assert(participant_ids(self.participants@)[i as int] == id@);
                self.participants.remove(i);
            },
            None => {},
        }
    }

    /// Appends `message` to the history, unless the history is full.
    pub fn add_message(&mut self, message: ChatMessage) -> (r: Result<(), RoomError>)
        requires
            old(self).wf(),
        ensures
            final(self).wf(),
            old(self).messages@.len() >= old(self).message_capacity ==> {
                &&& r == Err::<(), RoomError>(
                    RoomError::MessageCapacityExceeded {
                        capacity: old(self).message_capacity,
                        current: old(self).messages@.len() as usize,
                    },
                )
                &&& *final(self) == *old(self)
            },
            old(self).messages@.len() < old(self).message_capacity ==> {
                &&& r is Ok
                &&& final(self).messages@ == old(self).messages@.push(message)
                &&& final(self).participants == old(self).participants
                &&& final(self).id == old(self).id
                &&& final(self).created_at == old(self).created_at
                &&& final(self).participant_capacity == old(self).participant_capacity
                &&& final(self).message_capacity == old(self).message_capacity
            },
    {
        let current = self.messages.len();
        if current >= self.message_capacity {
            return Err(
                RoomError::MessageCapacityExceeded { capacity: self.message_capacity, current },
            );
        }
        self.messages.push(message);
        Ok(())
    }

    /// A copy of the room that holds the same values.
    pub fn snapshot(&self) -> (r: Room)
        ensures
            r.same_as(self),
    {
        let mut participants: Vec<Participant> = Vec::new();
        let mut i: usize = 0;
        while i < self.participants.len()
            invariant
                0 <= i <= self.participants@.len(),
                participants@.len() == i,
                forall|j: int| 0 <= j < i ==> participants@[j]@ == self.participants@[j]@,
            decreases self.participants@.len() - i,
        {
            participants.push(self.participants[i].clone());
            i = i + 1;
        }
        let mut messages: Vec<ChatMessage> = Vec::new();
        let mut k: usize = 0;
        while k < self.messages.len()
            invariant
                0 <= k <= self.messages@.len(),
                messages@.len() == k,
                forall|j: int| 0 <= j < k ==> messages@[j]@ == self.messages@[j]@,
            decreases self.messages@.len() - k,
        {
            messages.push(self.messages[k].clone());
            k = k + 1;
        }
        assert(participant_views(participants@) =~= participant_views(self.participants@));
        assert(message_views(messages@) =~= message_views(self.messages@));
        Room {
            id: self.id.clone(),
            created_at: self.created_at,
            participants,
            messages,
            participant_capacity: self.participant_capacity,
            message_capacity: self.message_capacity,
        }
    }
}

} // verus!
