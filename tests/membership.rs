use room_chat::{
    ChatPayload, ClientId, ConnectError, GetRoomDetailError, InMemoryRoomRepository,
    MessageContent, MessagePushError, RepositoryError, Room, RoomId, SendMessageError, Timestamp,
    ValueObjectError,
};
use tokio::sync::mpsc::{unbounded_channel, UnboundedReceiver};

const ROOM_UUID: &str = "550e8400-e29b-41d4-a716-446655440000";

fn create_test_repository() -> InMemoryRoomRepository {
    let room = Room::new(
        RoomId::new(ROOM_UUID.to_string()).unwrap(),
        Timestamp::new(1_700_000_000_000),
    );
    InMemoryRoomRepository::new(room)
}

fn cid(s: &str) -> ClientId {
    ClientId::new(s.to_string()).unwrap()
}

fn drain(rx: &mut UnboundedReceiver<String>) -> Vec<String> {
    let mut out = Vec::new();
    while let Ok(m) = rx.try_recv() {
        out.push(m);
    }
    out
}

fn chat(id: &str, content: &str, ts: i64) -> ChatPayload {
    ChatPayload {
        client_id: id.to_string(),
        content: content.to_string(),
        timestamp: ts,
    }
}

#[test]
fn test_add_participant_success() {
    let mut repo = create_test_repository();
    let (sender, _receiver) = unbounded_channel();
    let timestamp = 1_700_000_000_123i64;
    let client_id = ClientId::new("alice".to_string()).unwrap();
    let result = repo.add_participant(client_id, sender, Timestamp::new(timestamp));
    assert!(result.is_ok());
    assert_eq!(repo.count_connected_clients(), 1);
    let participants = repo.get_participants();
    assert_eq!(participants.len(), 1);
    assert_eq!(participants[0].id.as_str(), "alice");
    assert_eq!(participants[0].connected_at.value(), timestamp);
}

#[test]
fn test_remove_participant_success() {
    let mut repo = create_test_repository();
    let (sender, _receiver) = unbounded_channel();
    let client_id = ClientId::new("alice".to_string()).unwrap();
    repo.add_participant(client_id.clone(), sender, Timestamp::new(5))
        .unwrap();
    let result = repo.remove_participant(&client_id);
    assert!(result.is_ok());
    assert_eq!(repo.count_connected_clients(), 0);
    let participants = repo.get_participants();
    assert_eq!(participants.len(), 0);
}

#[test]
fn test_remove_nonexistent_participant() {
    let mut repo = create_test_repository();
    let nonexistent = ClientId::new("nonexistent".to_string()).unwrap();
    let result = repo.remove_participant(&nonexistent);
    assert!(result.is_err());
    assert!(matches!(
        result.unwrap_err(),
        RepositoryError::ClientInfoNotFound(_)
    ));
}

#[test]
fn test_count_connected_clients() {
    let mut repo = create_test_repository();
    let (sender1, _receiver1) = unbounded_channel();
    let (sender2, _receiver2) = unbounded_channel();
    repo.add_participant(cid("alice"), sender1, Timestamp::new(1)).unwrap();
    repo.add_participant(cid("bob"), sender2, Timestamp::new(1)).unwrap();
    assert_eq!(repo.count_connected_clients(), 2);
}

#[test]
fn test_get_all_connected_client_ids() {
    let mut repo = create_test_repository();
    let (sender1, _receiver1) = unbounded_channel();
    let (sender2, _receiver2) = unbounded_channel();
    let alice = cid("alice");
    let bob = cid("bob");
    repo.add_participant(alice.clone(), sender1, Timestamp::new(1)).unwrap();
    repo.add_participant(bob.clone(), sender2, Timestamp::new(1)).unwrap();
    let client_ids = repo.get_all_connected_client_ids();
    assert_eq!(client_ids.len(), 2);
    assert!(client_ids.contains(&alice));
    assert!(client_ids.contains(&bob));
}

#[test]
fn test_add_message_success() {
    let mut repo = create_test_repository();
    let (sender, _receiver) = unbounded_channel();
    let client_id = cid("alice");
    repo.add_participant(client_id.clone(), sender, Timestamp::new(1)).unwrap();
    let content = MessageContent::new("Hello".to_string()).unwrap();
    let result = repo.add_message(client_id.clone(), content, Timestamp::new(2));
    assert!(result.is_ok());
    let room = repo.get_room().unwrap();
    assert_eq!(room.messages.len(), 1);
    assert_eq!(room.messages[0].from, client_id);
}

#[test]
fn add_participant_twice_is_refused_and_changes_nothing() {
    let mut repo = create_test_repository();
    let (s1, _r1) = unbounded_channel();
    let (s2, _r2) = unbounded_channel();
    repo.add_participant(cid("alice"), s1, Timestamp::new(1)).unwrap();
    let err = repo.add_participant(cid("alice"), s2, Timestamp::new(2)).unwrap_err();
    assert_eq!(err, RepositoryError::ParticipantAlreadyExists("alice".to_string()));
    assert_eq!(repo.count_connected_clients(), 1);
    assert_eq!(repo.get_participants()[0].connected_at.value(), 1);
}

#[test]
fn add_participant_to_full_room_is_refused() {
    let room = Room::with_capacity(RoomId::new(ROOM_UUID.to_string()).unwrap(), Timestamp::new(0), 1, 5);
    let mut repo = InMemoryRoomRepository::new(room);
    let (s1, _r1) = unbounded_channel();
    let (s2, _r2) = unbounded_channel();
    repo.add_participant(cid("alice"), s1, Timestamp::new(1)).unwrap();
    let err = repo.add_participant(cid("bob"), s2, Timestamp::new(2)).unwrap_err();
    assert_eq!(err, RepositoryError::ParticipantNotFound("bob".to_string()));
    assert_eq!(repo.count_connected_clients(), 1);
    assert_eq!(repo.get_participants().len(), 1);
}

#[test]
fn add_message_to_full_history_is_refused() {
    let room = Room::with_capacity(RoomId::new(ROOM_UUID.to_string()).unwrap(), Timestamp::new(0), 5, 1);
    let mut repo = InMemoryRoomRepository::new(room);
    repo.add_message(cid("alice"), MessageContent::new("one".to_string()).unwrap(), Timestamp::new(1))
        .unwrap();
    let err = repo
        .add_message(cid("alice"), MessageContent::new("two".to_string()).unwrap(), Timestamp::new(2))
        .unwrap_err();
    assert_eq!(err, RepositoryError::RoomNotFound);
    assert_eq!(repo.get_room().unwrap().messages.len(), 1);
}

#[test]
fn room_detail_is_found_by_its_own_id_only() {
    let repo = create_test_repository();
    let room = repo.get_room_detail(ROOM_UUID).unwrap();
    assert_eq!(room.id.as_str(), ROOM_UUID);
    assert_eq!(
        repo.get_room_detail("00000000-0000-0000-0000-000000000000").unwrap_err(),
        GetRoomDetailError::RoomNotFound
    );
    let rooms = repo.get_rooms();
    assert_eq!(rooms.len(), 1);
    assert_eq!(rooms[0].created_at.value(), 1_700_000_000_000);
}

#[test]
fn scenario_first_participant_receives_snapshot_of_itself() {
    let mut repo = create_test_repository();
    let (tx, mut rx) = unbounded_channel();
    repo.connect(cid("alice"), tx, Timestamp::new(1000)).unwrap();
    assert_eq!(
        drain(&mut rx),
        vec![
            r#"{"type":"room-connected","participants":[{"client_id":"alice","connected_at":1000}]}"#
                .to_string()
        ]
    );
}

#[test]
fn scenario_second_participant_gets_both_and_first_is_told() {
    let mut repo = create_test_repository();
    let (tx_a, mut rx_a) = unbounded_channel();
    let (tx_b, mut rx_b) = unbounded_channel();
    repo.connect(cid("alice"), tx_a, Timestamp::new(1000)).unwrap();
    drain(&mut rx_a);
    repo.connect(cid("bob"), tx_b, Timestamp::new(2000)).unwrap();
    assert_eq!(
        drain(&mut rx_b),
        vec![r#"{"type":"room-connected","participants":[{"client_id":"alice","connected_at":1000},{"client_id":"bob","connected_at":2000}]}"#
        .to_string()]
    );
    assert_eq!(
        drain(&mut rx_a),
        vec![r#"{"type":"participant-joined","client_id":"bob","connected_at":2000}"#.to_string()]
    );
}

#[test]
fn scenario_chat_reaches_others_but_not_the_sender() {
    let mut repo = create_test_repository();
    let (tx_a, mut rx_a) = unbounded_channel();
    let (tx_b, mut rx_b) = unbounded_channel();
    repo.connect(cid("alice"), tx_a, Timestamp::new(1000)).unwrap();
    repo.connect(cid("bob"), tx_b, Timestamp::new(2000)).unwrap();
    drain(&mut rx_a);
    drain(&mut rx_b);
    repo.relay_chat(&cid("alice"), &chat("alice", "hi", 3000)).unwrap();
    assert_eq!(
        drain(&mut rx_b),
        vec![r#"{"type":"chat","client_id":"alice","content":"hi","timestamp":3000}"#.to_string()]
    );
    assert!(drain(&mut rx_a).is_empty());
    let room = repo.get_room().unwrap();
    assert_eq!(room.messages.len(), 1);
    assert_eq!(room.messages[0].content.as_str(), "hi");
    assert_eq!(room.messages[0].timestamp.value(), 3000);
}

#[test]
fn scenario_departure_is_announced_to_the_remaining() {
    let mut repo = create_test_repository();
    let (tx_a, mut rx_a) = unbounded_channel();
    let (tx_b, _rx_b) = unbounded_channel();
    repo.connect(cid("alice"), tx_a, Timestamp::new(1000)).unwrap();
    repo.connect(cid("bob"), tx_b, Timestamp::new(2000)).unwrap();
    drain(&mut rx_a);
    repo.disconnect(&cid("bob"), Timestamp::new(4000)).unwrap();
    assert_eq!(
        drain(&mut rx_a),
        vec![r#"{"type":"participant-left","client_id":"bob","disconnected_at":4000}"#.to_string()]
    );
    assert_eq!(repo.count_connected_clients(), 1);
    assert_eq!(repo.get_participants().len(), 1);
}

#[test]
fn scenario_duplicate_identity_is_rejected_and_membership_unchanged() {
    let mut repo = create_test_repository();
    let (tx_a, _rx_a) = unbounded_channel();
    let (tx_a2, mut rx_a2) = unbounded_channel();
    repo.connect(cid("alice"), tx_a, Timestamp::new(1000)).unwrap();
    let err = repo.connect(cid("alice"), tx_a2, Timestamp::new(1500)).unwrap_err();
    assert_eq!(err, ConnectError::DuplicateClientId("alice".to_string()));
    assert_eq!(repo.count_connected_clients(), 1);
    assert_eq!(repo.get_participants()[0].connected_at.value(), 1000);
    assert!(drain(&mut rx_a2).is_empty());
}

#[test]
fn scenario_content_length_limit_at_relay() {
    let mut repo = create_test_repository();
    let (tx_a, _rx_a) = unbounded_channel();
    let (tx_b, mut rx_b) = unbounded_channel();
    repo.connect(cid("alice"), tx_a, Timestamp::new(1000)).unwrap();
    repo.connect(cid("bob"), tx_b, Timestamp::new(2000)).unwrap();
    drain(&mut rx_b);
    let exact = "x".repeat(10000);
    repo.relay_chat(&cid("alice"), &chat("alice", &exact, 3000)).unwrap();
    assert_eq!(drain(&mut rx_b).len(), 1);
    let err = repo
        .relay_chat(&cid("alice"), &chat("alice", &"x".repeat(10001), 3001))
        .unwrap_err();
    assert_eq!(
        err,
        SendMessageError::InvalidContent(ValueObjectError::MessageContentTooLong {
            max: 10000,
            actual: 10001
        })
    );
    assert!(drain(&mut rx_b).is_empty());
    assert_eq!(repo.get_room().unwrap().messages.len(), 1);
}

#[test]
fn relay_of_empty_content_is_refused() {
    let mut repo = create_test_repository();
    let (tx_a, _rx_a) = unbounded_channel();
    repo.connect(cid("alice"), tx_a, Timestamp::new(1000)).unwrap();
    assert_eq!(
        repo.relay_chat(&cid("alice"), &chat("alice", "", 1)).unwrap_err(),
        SendMessageError::InvalidContent(ValueObjectError::MessageContentEmpty)
    );
}

#[test]
fn relay_with_full_history_is_reported_to_the_sender_only() {
    let room = Room::with_capacity(RoomId::new(ROOM_UUID.to_string()).unwrap(), Timestamp::new(0), 5, 0);
    let mut repo = InMemoryRoomRepository::new(room);
    let (tx_a, _rx_a) = unbounded_channel();
    let (tx_b, mut rx_b) = unbounded_channel();
    repo.connect(cid("alice"), tx_a, Timestamp::new(1)).unwrap();
    repo.connect(cid("bob"), tx_b, Timestamp::new(2)).unwrap();
    drain(&mut rx_b);
    assert_eq!(
        repo.relay_chat(&cid("alice"), &chat("alice", "hi", 3)).unwrap_err(),
        SendMessageError::MessageCapacityExceeded
    );
    assert!(drain(&mut rx_b).is_empty());
}

#[test]
fn relay_fails_when_every_other_channel_is_closed() {
    let mut repo = create_test_repository();
    let (tx_a, _rx_a) = unbounded_channel();
    let (tx_b, rx_b) = unbounded_channel();
    repo.connect(cid("alice"), tx_a, Timestamp::new(1)).unwrap();
    repo.connect(cid("bob"), tx_b, Timestamp::new(2)).unwrap();
    drop(rx_b);
    let err = repo.relay_chat(&cid("alice"), &chat("alice", "hi", 3)).unwrap_err();
    assert!(matches!(err, SendMessageError::BroadcastFailed(_)));
}

#[test]
fn relay_with_nobody_else_succeeds() {
    let mut repo = create_test_repository();
    let (tx_a, mut rx_a) = unbounded_channel();
    repo.connect(cid("alice"), tx_a, Timestamp::new(1)).unwrap();
    drain(&mut rx_a);
    assert!(repo.relay_chat(&cid("alice"), &chat("alice", "alone", 2)).is_ok());
    assert!(drain(&mut rx_a).is_empty());
}

#[test]
fn unparsed_text_is_relayed_from_unknown_sender() {
    let mut repo = create_test_repository();
    let (tx_a, _rx_a) = unbounded_channel();
    let (tx_b, mut rx_b) = unbounded_channel();
    repo.connect(cid("alice"), tx_a, Timestamp::new(1)).unwrap();
    repo.connect(cid("bob"), tx_b, Timestamp::new(2)).unwrap();
    drain(&mut rx_b);
    let payload = room_chat::inbound_chat(None, "plain words".to_string());
    repo.relay_chat(&cid("alice"), &payload).unwrap();
    assert_eq!(
        drain(&mut rx_b),
        vec![r#"{"type":"chat","client_id":"unknown","content":"plain words","timestamp":0}"#.to_string()]
    );
}

#[test]
fn connect_to_full_room_is_refused() {
    let room = Room::with_capacity(RoomId::new(ROOM_UUID.to_string()).unwrap(), Timestamp::new(0), 1, 5);
    let mut repo = InMemoryRoomRepository::new(room);
    let (tx_a, _rx_a) = unbounded_channel();
    let (tx_b, mut rx_b) = unbounded_channel();
    repo.connect(cid("alice"), tx_a, Timestamp::new(1)).unwrap();
    assert_eq!(
        repo.connect(cid("bob"), tx_b, Timestamp::new(2)).unwrap_err(),
        ConnectError::RoomCapacityExceeded
    );
    assert_eq!(repo.count_connected_clients(), 1);
    assert!(drain(&mut rx_b).is_empty());
}

#[test]
fn disconnect_of_unknown_identity_is_reported() {
    let mut repo = create_test_repository();
    assert_eq!(
        repo.disconnect(&cid("ghost"), Timestamp::new(1)).unwrap_err(),
        RepositoryError::ClientInfoNotFound("ghost".to_string())
    );
}

#[test]
fn uniqueness_second_admission_of_same_identity_never_accepted() {
    let mut repo = create_test_repository();
    let mut accepted = 0;
    for i in 0..3 {
        let (tx, _rx) = unbounded_channel();
        if repo.connect(cid("carol"), tx, Timestamp::new(i)).is_ok() {
            accepted += 1;
        }
    }
    assert_eq!(accepted, 1);
    assert_eq!(repo.get_all_connected_client_ids(), vec![cid("carol")]);
}

#[test]
fn parity_registry_and_room_agree_after_mixed_operations() {
    let mut repo = create_test_repository();
    let names = ["a", "b", "c", "d"];
    let mut receivers = Vec::new();
    for (i, n) in names.iter().enumerate() {
        let (tx, rx) = unbounded_channel();
        receivers.push(rx);
        repo.connect(cid(n), tx, Timestamp::new(i as i64)).unwrap();
    }
    repo.disconnect(&cid("b"), Timestamp::new(10)).unwrap();
    repo.remove_participant(&cid("d")).unwrap();
    let ids: Vec<String> = repo
        .get_all_connected_client_ids()
        .into_iter()
        .map(|c| c.into_string())
        .collect();
    let participants: Vec<String> = repo
        .get_participants()
        .into_iter()
        .map(|p| p.id.into_string())
        .collect();
    assert_eq!(repo.count_connected_clients(), participants.len());
    assert_eq!(ids, participants);
    assert_eq!(ids, vec!["a".to_string(), "c".to_string()]);
}

#[test]
fn snapshot_always_includes_the_newcomer() {
    let mut repo = create_test_repository();
    let (tx_a, _rx_a) = unbounded_channel();
    repo.connect(cid("alice"), tx_a, Timestamp::new(1)).unwrap();
    let (tx_c, mut rx_c) = unbounded_channel();
    repo.connect(cid("carol"), tx_c, Timestamp::new(7)).unwrap();
    let got = drain(&mut rx_c);
    assert_eq!(got.len(), 1);
    assert!(got[0].contains(r#"{"client_id":"carol","connected_at":7}"#));
}

#[test]
fn broadcast_skips_a_closed_channel_and_reaches_the_rest() {
    let mut repo = create_test_repository();
    let (tx_a, mut rx_a) = unbounded_channel();
    let (tx_b, rx_b) = unbounded_channel();
    let (tx_c, mut rx_c) = unbounded_channel();
    repo.add_participant(cid("a"), tx_a, Timestamp::new(1)).unwrap();
    repo.add_participant(cid("b"), tx_b, Timestamp::new(2)).unwrap();
    repo.add_participant(cid("c"), tx_c, Timestamp::new(3)).unwrap();
    drop(rx_b);
    let targets = vec![cid("a"), cid("b"), cid("c")];
    assert!(repo.broadcast(&targets, &"event".to_string()).is_ok());
    assert_eq!(drain(&mut rx_a), vec!["event".to_string()]);
    assert_eq!(drain(&mut rx_c), vec!["event".to_string()]);
    assert_eq!(
        repo.deliver(&targets, &"again".to_string()),
        vec![true, false, true]
    );
}

#[test]
fn broadcast_fails_only_when_every_target_failed() {
    let mut repo = create_test_repository();
    let (tx_a, rx_a) = unbounded_channel();
    repo.add_participant(cid("a"), tx_a, Timestamp::new(1)).unwrap();
    drop(rx_a);
    let err = repo
        .broadcast(&vec![cid("a"), cid("nobody")], &"e".to_string())
        .unwrap_err();
    assert!(matches!(err, MessagePushError::PushFailed(_)));
    assert!(repo.broadcast(&vec![], &"e".to_string()).is_ok());
}

#[test]
fn push_to_reports_unknown_and_closed_channels() {
    let mut repo = create_test_repository();
    let (tx_a, rx_a) = unbounded_channel();
    repo.add_participant(cid("a"), tx_a, Timestamp::new(1)).unwrap();
    assert_eq!(
        repo.push_to(&cid("zed"), "e".to_string()).unwrap_err(),
        MessagePushError::ClientNotFound("zed".to_string())
    );
    drop(rx_a);
    assert_eq!(
        repo.push_to(&cid("a"), "e".to_string()).unwrap_err(),
        MessagePushError::PushFailed("a".to_string())
    );
}

#[test]
fn fifo_per_recipient_keeps_broadcast_order() {
    let mut repo = create_test_repository();
    let (tx_a, _rx_a) = unbounded_channel();
    let (tx_b, mut rx_b) = unbounded_channel();
    repo.connect(cid("alice"), tx_a, Timestamp::new(1)).unwrap();
    repo.connect(cid("bob"), tx_b, Timestamp::new(2)).unwrap();
    drain(&mut rx_b);
    for (i, word) in ["one", "two", "three"].iter().enumerate() {
        repo.relay_chat(&cid("alice"), &chat("alice", word, i as i64)).unwrap();
    }
    let got = drain(&mut rx_b);
    assert_eq!(got.len(), 3);
    assert!(got[0].contains("\"one\""));
    assert!(got[1].contains("\"two\""));
    assert!(got[2].contains("\"three\""));
}

#[test]
fn others_excludes_only_the_given_identity() {
    let mut repo = create_test_repository();
    for n in ["a", "b", "c"] {
        let (tx, _rx) = unbounded_channel();
        repo.add_participant(cid(n), tx, Timestamp::new(0)).unwrap();
    }
    assert_eq!(repo.connected_client_ids_except(&cid("b")), vec![cid("a"), cid("c")]);
    let infos = repo.participant_infos();
    assert_eq!(infos.len(), 3);
    assert_eq!(infos[2].client_id, "c");
}
