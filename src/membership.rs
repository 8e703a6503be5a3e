//! The membership store: the connection registry (identity, outbound channel,
//! connect time) and the room aggregate, changed together by each operation so
//! that both always list the same participants in the same order.

use vstd::prelude::*;

use tokio::sync::mpsc::UnboundedSender;

use crate::event_log::{distinct, handed_out, ids_except, lemma_log_after_dom, log_after, EventLog};
use crate::entity::{
    first_index_of, participant_ids, participant_views, ChatMessage, Participant, Room,
};
use crate::error::{
    ConnectError, GetRoomDetailError, MessagePushError, RepositoryError, SendMessageError,
    ValueObjectError,
};
use crate::protocol::{
    chat_json, encode_chat, encode_participant_joined, encode_participant_left,
    encode_room_connected, participant_joined_json, participant_left_json, room_connected_json,
    ChatPayload, ParticipantInfo,
};
use crate::value_object::{valid_message_content, ClientId, MessageContent, Timestamp, MESSAGE_CONTENT_MAX_CHARS};

verus! {

/// The sending half of a connection's outbound channel.
#[verifier::external_type_specification]
#[verifier::external_body]
#[verifier::reject_recursive_types(T)]
pub struct ExUnboundedSender<T>(UnboundedSender<T>);

/// Relies on tokio's UnboundedSender::send: queues the event on the channel, or
/// fails when the receiving half is closed. Which of the two happens depends on
/// the receiver, so nothing is stated of the outcome.
#[verifier::external_body]
fn channel_send(sender: &UnboundedSender<String>, event: String) -> (accepted: bool) {
    sender.send(event).is_ok()
}

/// The identities of a list of client identifiers, in order.
pub open spec fn client_id_views(ids: Seq<ClientId>) -> Seq<Seq<char>> {
    ids.map_values(|c: ClientId| c@)
}

/// Two rooms agree on everything but their participants.
pub open spec fn same_history(a: Room, b: Room) -> bool {
    &&& a.id == b.id
    &&& a.created_at == b.created_at
    &&& a.messages == b.messages
    &&& a.participant_capacity == b.participant_capacity
    &&& a.message_capacity == b.message_capacity
}

/// Whether some entry of `accepted` is true.
fn any_accepted(accepted: &Vec<bool>) -> (r: bool)
    ensures
        r == accepted@.contains(true),
{
    let mut i: usize = 0;
    while i < accepted.len()
        invariant
            0 <= i <= accepted@.len(),
            forall|j: int| 0 <= j < i ==> !accepted@[j],
        decreases accepted@.len() - i,
    {
        if accepted[i] {
            assert(accepted@[i as int]);
            return true;
        }
        i = i + 1;
    }
    false
}

/// One registered connection.
struct ConnectionHandle {
    client_id: ClientId,
    sender: UnboundedSender<String>,
    connected_at: Timestamp,
}

/// The registry of live connections and the room aggregate, kept in step.
pub struct InMemoryRoomRepository {
    room: Room,
    clients: Vec<ConnectionHandle>,
    pushed: Ghost<EventLog>,
}

impl InMemoryRoomRepository {
    /// The registered connections, as (identity, connect time), in order of admission.
    pub closed spec fn registry(&self) -> Seq<(Seq<char>, i64)> {
        self.clients@.map_values(|c: ConnectionHandle| (c.client_id@, c.connected_at@))
    }

    /// The registered identities, in order of admission.
    pub open spec fn ids(&self) -> Seq<Seq<char>> {
        self.registry().map_values(|e: (Seq<char>, i64)| e.0)
    }

    /// The room aggregate.
    pub closed spec fn room(&self) -> Room {
        self.room
    }

    /// The events each registered identity's channel has accepted, oldest first.
    pub closed spec fn pushed(&self) -> EventLog {
        self.pushed@
    }

    /// The registry and the aggregate list the same participants in the same
    /// order, no identity is registered twice, both lists keep within their
    /// capacities, and the event log covers exactly the registered identities.
    pub closed spec fn wf(&self) -> bool {
        &&& self.room.wf()
        &&& participant_views(self.room.participants@) == self.registry()
        &&& distinct(self.ids())
        &&& self.pushed@.dom() == self.ids().to_set()
    }

    /// A store with no connections around `room`, whose participants, having no
    /// connection, are dropped.
    pub fn new(room: Room) -> (r: InMemoryRoomRepository)
        requires
            room.wf(),
        ensures
            r.wf(),
            r.registry() == Seq::<(Seq<char>, i64)>::empty(),
            r.room().participants@ == Seq::<Participant>::empty(),
            same_history(r.room(), room),
            r.pushed() == EventLog::empty(),
    {
        let mut room = room;
        room.participants = Vec::new();
        let r = InMemoryRoomRepository { room, clients: Vec::new(), pushed: Ghost(Map::empty()) };
        assert(r.ids() =~= Seq::<Seq<char>>::empty());
        assert(r.ids().to_set() =~= Set::<Seq<char>>::empty());
        assert(participant_views(r.room.participants@) =~= r.registry());
        r
    }

    /// Position of `id` in the registry, if it is registered.
    fn find(&self, id: &ClientId) -> (r: Option<usize>)
        ensures
            r matches Some(i) ==> i < self.clients@.len() && self.ids()[i as int] == id@,
            r is None ==> !self.ids().contains(id@),
    {
        let mut i: usize = 0;
        while i < self.clients.len()
            invariant
                0 <= i <= self.clients@.len(),
                forall|j: int| 0 <= j < i ==> self.ids()[j] != id@,
            decreases self.clients@.len() - i,
        {
            if self.clients[i].client_id == *id {
                return Some(i);
            }
            i = i + 1;
        }
        None
    }

    /// Admits `client_id` with its outbound `sender`: the room takes the
    /// participant first, and only then does the registry take the connection.
    /// An identity already registered is refused with `ParticipantAlreadyExists`,
    /// and a full room with `ParticipantNotFound`.
    pub fn add_participant(
        &mut self,
        client_id: ClientId,
        sender: UnboundedSender<String>,
        timestamp: Timestamp,
    ) -> (r: Result<(), RepositoryError>)
        requires
            old(self).wf(),
        ensures
            final(self).wf(),
            old(self).ids().contains(client_id@) ==> {
                &&& r matches Err(RepositoryError::ParticipantAlreadyExists(s)) && s@ == client_id@
                &&& *final(self) == *old(self)
            },
            !old(self).ids().contains(client_id@) && old(self).registry().len() >= old(
                self,
            ).room().participant_capacity ==> {
                &&& r matches Err(RepositoryError::ParticipantNotFound(s)) && s@ == client_id@
                &&& *final(self) == *old(self)
            },
            !old(self).ids().contains(client_id@) && old(self).registry().len() < old(
                self,
            ).room().participant_capacity ==> {
                &&& r is Ok
                &&& final(self).registry() == old(self).registry().push(
                    (client_id@, timestamp@),
                )
                &&& same_history(final(self).room(), old(self).room())
                &&& final(self).pushed() == old(self).pushed().insert(client_id@, seq![])
            },
    {
        proof {
            assert(old(self).registry().len() == old(self).room.participants@.len());
        }
        if let Some(_) = self.find(&client_id) {
            return Err(RepositoryError::ParticipantAlreadyExists(client_id.into_string()));
        }
        let participant = Participant::new(client_id.clone(), timestamp);
        match self.room.add_participant(participant) {
            Err(_) => {
                return Err(RepositoryError::ParticipantNotFound(client_id.into_string()));
            },
            Ok(()) => {},
        }
        let ghost key = client_id@;
        self.clients.push(ConnectionHandle { client_id, sender, connected_at: timestamp });
        self.pushed = Ghost(self.pushed@.insert(key, seq![]));
        proof {
            assert(self.registry() =~= old(self).registry().push((key, timestamp@)));
            assert(participant_views(self.room.participants@) =~= self.registry());
            assert(self.ids() =~= old(self).ids().push(key));
            assert(distinct(self.ids()));
            assert(self.ids().to_set() =~= old(self).ids().to_set().insert(key)) by {
                assert forall|x: Seq<char>| #[trigger]
                    self.ids().contains(x) <==> (old(self).ids().contains(x) || x == key) by {
                    if old(self).ids().contains(x) {
                        let j = choose|j: int|
                            0 <= j < old(self).ids().len() && old(self).ids()[j] == x;
                        assert(self.ids()[j] == x);
                    }
                    if x == key {
                        assert(self.ids()[old(self).ids().len() as int] == x);
                    }
                    if self.ids().contains(x) {
                        let j = choose|j: int| 0 <= j < self.ids().len() && self.ids()[j] == x;
                        if j < old(self).ids().len() {
                            assert(old(self).ids()[j] == x);
                        }
                    }
                }
            }
        }
        Ok(())
    }

    /// Removes the connection of `client_id`: the registry entry first, then the
    /// room's participant. An identity that is not registered is reported.
    pub fn remove_participant(&mut self, client_id: &ClientId) -> (r: Result<(), RepositoryError>)
        requires
            old(self).wf(),
        ensures
            final(self).wf(),
            !old(self).ids().contains(client_id@) ==> {
                &&& r matches Err(RepositoryError::ClientInfoNotFound(s)) && s@ == client_id@
                &&& *final(self) == *old(self)
            },
            old(self).ids().contains(client_id@) ==> {
                &&& r is Ok
                &&& exists|i: int|
                    0 <= i < old(self).registry().len() && old(self).ids()[i] == client_id@
                        && final(self).registry() == old(self).registry().remove(i)
                &&& !final(self).ids().contains(client_id@)
                &&& same_history(final(self).room(), old(self).room())
                &&& final(self).pushed() == old(self).pushed().remove(client_id@)
            },
    {
        let i = match self.find(client_id) {
            None => {
                return Err(
                    RepositoryError::ClientInfoNotFound(client_id.as_str().to_string()),
                );
            },
            Some(i) => i,
        };
        let ghost key = client_id@;
        let _ = self.clients.remove(i);
        self.pushed = Ghost(self.pushed@.remove(key));
        proof {
            assert(participant_ids(old(self).room.participants@)[i as int] == key) by {
                assert(participant_views(old(self).room.participants@)[i as int]
                    == old(self).registry()[i as int]);
            }
        }
        self.room.remove_participant(client_id);
        proof {
            let k = choose|k: int|
                first_index_of(old(self).room.participants@, key, k)
                    && self.room.participants@ == old(self).room.participants@.remove(k);
            assert(participant_views(old(self).room.participants@)[k]
                == old(self).registry()[k]);
            assert(old(self).ids()[k] == key);
            if k > i {
                assert(old(self).room.participants@[i as int].id@ == key);
            }
            assert(k == i);
            assert(self.registry() =~= old(self).registry().remove(i as int));
            assert(participant_views(self.room.participants@) =~= self.registry());
            assert(self.ids() =~= old(self).ids().remove(i as int));
            assert(distinct(self.ids()));
            assert(self.ids().to_set() =~= old(self).ids().to_set().remove(key)) by {
                assert forall|x: Seq<char>| #[trigger]
                    self.ids().contains(x) <==> (old(self).ids().contains(x) && x != key) by {
                    if old(self).ids().contains(x) && x != key {
                        let j = choose|j: int|
                            0 <= j < old(self).ids().len() && old(self).ids()[j] == x;
                        if j < i {
                            assert(self.ids()[j] == x);
                        } else {
                            assert(self.ids()[j - 1] == x);
                        }
                    }
                    if self.ids().contains(x) {
                        let j = choose|j: int| 0 <= j < self.ids().len() && self.ids()[j] == x;
                        if j < i {
                            assert(old(self).ids()[j] == x);
                        } else {
                            assert(old(self).ids()[j + 1] == x);
                        }
                    }
                }
            }
        }
        Ok(())
    }

    /// Appends a message to the room's history; a full history is reported as
    /// `RoomNotFound`.
    pub fn add_message(
        &mut self,
        from_client_id: ClientId,
        content: MessageContent,
        timestamp: Timestamp,
    ) -> (r: Result<(), RepositoryError>)
        requires
            old(self).wf(),
        ensures
            final(self).wf(),
            old(self).room().messages@.len() >= old(self).room().message_capacity ==> {
                &&& r == Err::<(), RepositoryError>(RepositoryError::RoomNotFound)
                &&& *final(self) == *old(self)
            },
            old(self).room().messages@.len() < old(self).room().message_capacity ==> {
                &&& r is Ok
                &&& final(self).room().messages@.len() == old(self).room().messages@.len() + 1
                &&& final(self).room().messages@.last()@ == (
                    from_client_id@,
                    content@,
                    timestamp@,
                )
                &&& final(self).room().messages@.drop_last() == old(self).room().messages@
                &&& final(self).room().participants == old(self).room().participants
                &&& final(self).registry() == old(self).registry()
                &&& final(self).pushed() == old(self).pushed()
            },
    {
        let message = ChatMessage::new(from_client_id, content, timestamp);
        match self.room.add_message(message) {
            Err(_) => Err(RepositoryError::RoomNotFound),
            Ok(()) => {
                proof {
                    assert(self.room.messages@.drop_last() =~= old(self).room.messages@);
                }
                Ok(())
            },
        }
    }

    /// The number of registered connections.
    pub fn count_connected_clients(&self) -> (r: usize)
        ensures
            r == self.registry().len(),
    {
        self.clients.len()
    }

    /// The registered identities, in order of admission.
    pub fn get_all_connected_client_ids(&self) -> (r: Vec<ClientId>)
        ensures
            client_id_views(r@) == self.ids(),
    {
        let mut out: Vec<ClientId> = Vec::new();
        let mut i: usize = 0;
        while i < self.clients.len()
            invariant
                0 <= i <= self.clients@.len(),
                out@.len() == i,
                forall|j: int| 0 <= j < i ==> out@[j]@ == self.ids()[j],
            decreases self.clients@.len() - i,
        {
            out.push(self.clients[i].client_id.clone());
            i = i + 1;
        }
        assert(client_id_views(out@) =~= self.ids());
        out
    }

    /// The registered identities but `client_id`, in order of admission.
    pub fn connected_client_ids_except(&self, client_id: &ClientId) -> (r: Vec<ClientId>)
        ensures
            client_id_views(r@) == ids_except(self.ids(), client_id@),
    {
        let mut out: Vec<ClientId> = Vec::new();
        let mut i: usize = 0;
        while i < self.clients.len()
            invariant
                0 <= i <= self.clients@.len(),
                client_id_views(out@) == ids_except(self.ids().subrange(0, i as int), client_id@),
            decreases self.clients@.len() - i,
        {
            proof {
                assert(self.ids().subrange(0, i + 1).drop_last() =~= self.ids().subrange(
                    0,
                    i as int,
                ));
            }
            if self.clients[i].client_id != *client_id {
                out.push(self.clients[i].client_id.clone());
                proof {
                    assert(client_id_views(out@) =~= ids_except(
                        self.ids().subrange(0, i + 1),
                        client_id@,
                    ));
                }
            }
            i = i + 1;
        }
        assert(self.ids().subrange(0, i as int) =~= self.ids());
        out
    }

    /// The room's participants, in order of arrival.
    pub fn get_participants(&self) -> (r: Vec<Participant>)
        requires
            self.wf(),
        ensures
            participant_views(r@) == self.registry(),
            participant_views(r@) == participant_views(self.room().participants@),
    {
        self.room.snapshot().participants
    }

    /// A copy of the room aggregate.
    pub fn get_room(&self) -> (r: Result<Room, RepositoryError>)
        ensures
            r matches Ok(room) && room.same_as(&self.room()),
    {
        Ok(self.room.snapshot())
    }

    /// A copy of the room, when `room_id` is its identifier.
    pub fn get_room_detail(&self, room_id: &str) -> (r: Result<Room, GetRoomDetailError>)
        ensures
            room_id@ == self.room().id@ ==> (r matches Ok(room) && room.same_as(&self.room())),
            room_id@ != self.room().id@ ==> r == Err::<Room, _>(GetRoomDetailError::RoomNotFound),
    {
        let own = self.room.id.as_str().to_string();
        let asked = room_id.to_string();
        if own != asked {
            return Err(GetRoomDetailError::RoomNotFound);
        }
        Ok(self.room.snapshot())
    }

    /// All rooms of the store: its one room.
    pub fn get_rooms(&self) -> (r: Vec<Room>)
        ensures
            r@.len() == 1,
            r@[0].same_as(&self.room()),
    {
        let mut out: Vec<Room> = Vec::new();
        out.push(self.room.snapshot());
        out
    }

    /// The registered connections as snapshot entries, in order of admission.
    pub fn participant_infos(&self) -> (r: Vec<ParticipantInfo>)
        ensures
            r@.map_values(|p: ParticipantInfo| p@) == self.registry(),
    {
        let mut out: Vec<ParticipantInfo> = Vec::new();
        let mut i: usize = 0;
        while i < self.clients.len()
            invariant
                0 <= i <= self.clients@.len(),
                out@.len() == i,
                forall|j: int| 0 <= j < i ==> out@[j]@ == self.registry()[j],
            decreases self.clients@.len() - i,
        {
            let c = &self.clients[i];
            out.push(
                ParticipantInfo {
                    client_id: c.client_id.as_str().to_string(),
                    connected_at: c.connected_at.value(),
                },
            );
            i = i + 1;
        }
        assert(out@.map_values(|p: ParticipantInfo| p@) =~= self.registry());
        out
    }

    /// Hands `event` to the channel of `client_id`. An identity that is not
    /// registered, and a channel that refuses the event, are reported.
    pub fn push_to(&mut self, client_id: &ClientId, event: String) -> (r: Result<
        (),
        MessagePushError,
    >)
        requires
            old(self).wf(),
        ensures
            final(self).wf(),
            final(self).registry() == old(self).registry(),
            final(self).room() == old(self).room(),
            !old(self).ids().contains(client_id@) ==> {
                &&& r matches Err(MessagePushError::ClientNotFound(s)) && s@ == client_id@
                &&& final(self).pushed() == old(self).pushed()
            },
            r is Ok ==> old(self).ids().contains(client_id@) && final(self).pushed() == old(
                self,
            ).pushed().insert(client_id@, old(self).pushed()[client_id@].push(event@)),
            old(self).ids().contains(client_id@) && r is Err ==> {
                &&& r matches Err(MessagePushError::PushFailed(s)) && s@ == client_id@
                &&& final(self).pushed() == old(self).pushed()
            },
    {
        let i = match self.find(client_id) {
            None => {
                return Err(MessagePushError::ClientNotFound(client_id.as_str().to_string()));
            },
            Some(i) => i,
        };
        let ghost text = event@;
        if channel_send(&self.clients[i].sender, event) {
            let ghost key = client_id@;
            proof {
                assert(self.ids().contains(key));
                assert(self.ids().to_set().contains(key));
            }
            self.pushed = Ghost(self.pushed@.insert(key, self.pushed@[key].push(text)));
            proof {
                assert(self.pushed@.dom() =~= old(self).pushed@.dom());
            }
            Ok(())
        } else {
            Err(MessagePushError::PushFailed(client_id.as_str().to_string()))
        }
    }

    /// Hands `event` to the channel of each of `targets` in turn, whatever became
    /// of the others, and tells for each whether its channel took it.
    pub fn deliver(&mut self, targets: &Vec<ClientId>, event: &String) -> (accepted: Vec<bool>)
        requires
            old(self).wf(),
        ensures
            final(self).wf(),
            final(self).registry() == old(self).registry(),
            final(self).room() == old(self).room(),
            accepted@.len() == targets@.len(),
            final(self).pushed() == log_after(
                old(self).pushed(),
                client_id_views(targets@),
                accepted@,
                event@,
            ),
            forall|i: int|
                0 <= i < targets@.len() && #[trigger] accepted@[i] ==> old(self).ids().contains(
                    targets@[i]@,
                ),
    {
        let ghost views = client_id_views(targets@);
        let mut accepted: Vec<bool> = Vec::new();
        let mut i: usize = 0;
        while i < targets.len()
            invariant
                0 <= i <= targets@.len(),
                accepted@.len() == i,
                views == client_id_views(targets@),
                self.wf(),
                self.registry() == old(self).registry(),
                self.room() == old(self).room(),
                self.pushed() == log_after(
                    old(self).pushed(),
                    views.subrange(0, i as int),
                    accepted@,
                    event@,
                ),
                forall|j: int|
                    0 <= j < i && #[trigger] accepted@[j] ==> old(self).ids().contains(
                        targets@[j]@,
                    ),
            decreases targets@.len() - i,
        {
            let ghost acc0 = accepted@;
            let r = self.push_to(&targets[i], event.clone());
            accepted.push(r.is_ok());
            proof {
                let next = views.subrange(0, i + 1);
                assert(next.drop_last() =~= views.subrange(0, i as int));
                assert(accepted@.subrange(0, i as int) =~= acc0);
                assert(next.last() == targets@[i as int]@);
                lemma_log_after_dom(
                    old(self).pushed(),
                    views.subrange(0, i as int),
                    acc0,
                    event@,
                );
                assert(old(self).pushed().dom() == old(self).ids().to_set());
            }
            i = i + 1;
        }
        assert(views.subrange(0, i as int) =~= views);
        accepted
    }

    /// Hands `event` to the channel of each of `targets`. One target's failure
    /// does not stop the others; the broadcast fails only when there were
    /// targets and none of them took the event.
    pub fn broadcast(&mut self, targets: &Vec<ClientId>, event: &String) -> (r: Result<
        (),
        MessagePushError,
    >)
        requires
            old(self).wf(),
        ensures
            final(self).wf(),
            final(self).registry() == old(self).registry(),
            final(self).room() == old(self).room(),
            handed_out(old(self).pushed(), final(self).pushed(), client_id_views(targets@), event@, r is Ok),
            r is Err ==> r matches Err(MessagePushError::PushFailed(_)),
    {
        let accepted = self.deliver(targets, event);
        let reached = targets.len() == 0 || any_accepted(&accepted);
        proof {
            assert(reached == (targets@.len() == 0 || accepted@.contains(true)));
        }
        if reached {
            return Ok(());
        }
        Err(MessagePushError::PushFailed("no target took the event".to_string()))
    }

    /// Admission of a new connection, in one step: refuses an identity that is
    /// already registered and a full room; otherwise registers the connection,
    /// hands the newcomer the snapshot of all participants (itself included),
    /// then tells every other participant of the arrival.
    pub fn connect(
        &mut self,
        client_id: ClientId,
        sender: UnboundedSender<String>,
        connected_at: Timestamp,
    ) -> (r: Result<(), ConnectError>)
        requires
            old(self).wf(),
        ensures
            final(self).wf(),
            old(self).ids().contains(client_id@) ==> {
                &&& r matches Err(ConnectError::DuplicateClientId(s)) && s@ == client_id@
                &&& *final(self) == *old(self)
            },
            !old(self).ids().contains(client_id@) && old(self).registry().len() >= old(
                self,
            ).room().participant_capacity ==> {
                &&& r == Err::<(), ConnectError>(ConnectError::RoomCapacityExceeded)
                &&& *final(self) == *old(self)
            },
            !old(self).ids().contains(client_id@) && old(self).registry().len() < old(
                self,
            ).room().participant_capacity ==> {
                &&& r is Ok
                &&& final(self).registry() == old(self).registry().push(
                    (client_id@, connected_at@),
                )
                &&& same_history(final(self).room(), old(self).room())
                &&& exists|first: Seq<bool>, rest: Seq<bool>|
                    {
                        &&& first.len() == 1
                        &&& rest.len() == ids_except(final(self).ids(), client_id@).len()
                        &&& final(self).pushed() == log_after(
                            log_after(
                                old(self).pushed().insert(client_id@, seq![]),
                                seq![client_id@],
                                first,
                                room_connected_json(final(self).registry()),
                            ),
                            ids_except(final(self).ids(), client_id@),
                            rest,
                            participant_joined_json(client_id@, connected_at@),
                        )
                    }
            },
    {
        if let Some(_) = self.find(&client_id) {
            return Err(ConnectError::DuplicateClientId(client_id.into_string()));
        }
        let me = client_id.clone();
        match self.add_participant(client_id, sender, connected_at) {
            Err(_) => {
                return Err(ConnectError::RoomCapacityExceeded);
            },
            Ok(()) => {},
        }
        let infos = self.participant_infos();
        let snapshot = encode_room_connected(&infos);
        let mut newcomer: Vec<ClientId> = Vec::new();
        newcomer.push(me.clone());
        proof {
            assert(client_id_views(newcomer@) =~= seq![me@]);
        }
        let _ = self.deliver(&newcomer, &snapshot);
        let others = self.connected_client_ids_except(&me);
        let joined = encode_participant_joined(me.as_str(), connected_at.value());
        let _ = self.deliver(&others, &joined);
        Ok(())
    }

    /// Departure of a connection: removes it from the registry and the room,
    /// then tells every remaining participant. An identity that is not
    /// registered is reported and nothing changes.
    pub fn disconnect(&mut self, client_id: &ClientId, disconnected_at: Timestamp) -> (r: Result<
        (),
        RepositoryError,
    >)
        requires
            old(self).wf(),
        ensures
            final(self).wf(),
            !old(self).ids().contains(client_id@) ==> {
                &&& r matches Err(RepositoryError::ClientInfoNotFound(s)) && s@ == client_id@
                &&& *final(self) == *old(self)
            },
            old(self).ids().contains(client_id@) ==> {
                &&& r is Ok
                &&& exists|i: int|
                    0 <= i < old(self).registry().len() && old(self).ids()[i] == client_id@
                        && final(self).registry() == old(self).registry().remove(i)
                &&& !final(self).ids().contains(client_id@)
                &&& same_history(final(self).room(), old(self).room())
                &&& exists|accepted: Seq<bool>|
                    {
                        &&& accepted.len() == final(self).ids().len()
                        &&& final(self).pushed() == log_after(
                            old(self).pushed().remove(client_id@),
                            final(self).ids(),
                            accepted,
                            participant_left_json(client_id@, disconnected_at@),
                        )
                    }
            },
    {
        match self.remove_participant(client_id) {
            Err(e) => {
                return Err(e);
            },
            Ok(()) => {},
        }
        let remaining = self.get_all_connected_client_ids();
        let left = encode_participant_left(client_id.as_str(), disconnected_at.value());
        let _ = self.deliver(&remaining, &left);
        Ok(())
    }

    /// Relays a chat payload received from the connection of `sender`: the
    /// content is validated, recorded in the room's history under `sender`, then
    /// handed to every other participant. Invalid content and a full history are
    /// reported to the caller and nothing changes; the relay fails otherwise only
    /// when there were other participants and none took the event.
    pub fn relay_chat(&mut self, sender: &ClientId, payload: &ChatPayload) -> (r: Result<
        (),
        SendMessageError,
    >)
        requires
            old(self).wf(),
        ensures
            final(self).wf(),
            payload.content@.len() == 0 ==> {
                &&& r == Err::<(), SendMessageError>(
                    SendMessageError::InvalidContent(ValueObjectError::MessageContentEmpty),
                )
                &&& *final(self) == *old(self)
            },
            payload.content@.len() > MESSAGE_CONTENT_MAX_CHARS ==> {
                &&& r == Err::<(), SendMessageError>(
                    SendMessageError::InvalidContent(
                        ValueObjectError::MessageContentTooLong {
                            max: MESSAGE_CONTENT_MAX_CHARS,
                            actual: payload.content@.len() as usize,
                        },
                    ),
                )
                &&& *final(self) == *old(self)
            },
            valid_message_content(payload.content@) && old(self).room().messages@.len() >= old(
                self,
            ).room().message_capacity ==> {
                &&& r == Err::<(), SendMessageError>(SendMessageError::MessageCapacityExceeded)
                &&& *final(self) == *old(self)
            },
            valid_message_content(payload.content@) && old(self).room().messages@.len() < old(
                self,
            ).room().message_capacity ==> {
                &&& final(self).room().messages@.drop_last() == old(self).room().messages@
                &&& final(self).room().messages@.last()@ == (
                    sender@,
                    payload.content@,
                    payload.timestamp,
                )
                &&& final(self).room().participants == old(self).room().participants
                &&& final(self).registry() == old(self).registry()
                &&& handed_out(
                    old(self).pushed(),
                    final(self).pushed(),
                    ids_except(old(self).ids(), sender@),
                    chat_json(payload.client_id@, payload.content@, payload.timestamp),
                    r is Ok,
                )
                &&& r is Err ==> r matches Err(SendMessageError::BroadcastFailed(_))
            },
    {
        let content = match MessageContent::new(payload.content.clone()) {
            Err(e) => {
                return Err(SendMessageError::InvalidContent(e));
            },
            Ok(c) => c,
        };
        match self.add_message(sender.clone(), content, Timestamp::new(payload.timestamp)) {
            Err(_) => {
                return Err(SendMessageError::MessageCapacityExceeded);
            },
            Ok(()) => {},
        }
        let others = self.connected_client_ids_except(sender);
        let event = encode_chat(payload);
        let accepted = self.deliver(&others, &event);
        let reached = others.len() == 0 || any_accepted(&accepted);
        proof {
            assert(client_id_views(others@).len() == others@.len());
            assert(log_after(
                old(self).pushed(),
                ids_except(old(self).ids(), sender@),
                accepted@,
                chat_json(payload.client_id@, payload.content@, payload.timestamp),
            ) == self.pushed());
        }
        if reached {
            Ok(())
        } else {
            Err(SendMessageError::BroadcastFailed(event))
        }
    }
}

/// Uniqueness: a well-formed store holds at most one connection per identity.
pub proof fn lemma_unique_identities(store: &InMemoryRoomRepository)
    requires
        store.wf(),
    ensures
        distinct(store.ids()),
{
}

/// Parity: the registry and the room aggregate list the same participants in
/// the same order, so their counts and their sets of identities are equal.
pub proof fn lemma_registry_room_parity(store: &InMemoryRoomRepository)
    requires
        store.wf(),
    ensures
        store.registry() == participant_views(store.room().participants@),
        store.registry().len() == store.room().participants@.len(),
        store.ids() == participant_ids(store.room().participants@),
        store.ids().to_set() == participant_ids(store.room().participants@).to_set(),
{
    let ps = store.room().participants@;
    assert(participant_views(ps).len() == ps.len());
    assert(store.ids() =~= participant_ids(ps)) by {
        assert forall|i: int| 0 <= i < ps.len() implies store.ids()[i] == participant_ids(ps)[i] by {
            assert(store.registry()[i] == participant_views(ps)[i]);
        }
    }
}

/// Snapshot inclusion: the snapshot handed to a newcomer lists the registry
/// after its admission, which holds the newcomer and its connect time, and the
/// newcomer's record then holds that snapshot alone, or nothing when its channel
/// refused it.
pub proof fn lemma_snapshot_includes_newcomer(
    log: EventLog,
    registry: Seq<(Seq<char>, i64)>,
    id: Seq<char>,
    connected_at: i64,
    accepted: Seq<bool>,
)
    requires
        accepted.len() == 1,
    ensures
        registry.push((id, connected_at)).contains((id, connected_at)),
        log_after(
            log.insert(id, seq![]),
            seq![id],
            accepted,
            room_connected_json(registry.push((id, connected_at))),
        )[id] == if accepted[0] {
            seq![room_connected_json(registry.push((id, connected_at)))]
        } else {
            Seq::<Seq<char>>::empty()
        },
{
    let full = registry.push((id, connected_at));
    assert(full[registry.len() as int] == (id, connected_at));
    let start = log.insert(id, seq![]);
    assert(seq![id].drop_last() =~= Seq::<Seq<char>>::empty());
    assert(log_after(start, Seq::<Seq<char>>::empty(), accepted.subrange(0, 0), room_connected_json(full)) == start);
    if accepted[0] {
        assert(Seq::<Seq<char>>::empty().push(room_connected_json(full)) =~= seq![room_connected_json(full)]);
    }
}

} // verus!
