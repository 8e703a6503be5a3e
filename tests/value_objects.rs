use room_chat::{ClientId, MessageContent, RoomId, Timestamp, ValueObjectError};

#[test]
fn test_client_id_new_success() {
    let id = "alice".to_string();
    let result = ClientId::new(id);
    assert!(result.is_ok());
    assert_eq!(result.unwrap().as_str(), "alice");
}

#[test]
fn test_client_id_new_empty_fails() {
    let id = "".to_string();
    let result = ClientId::new(id);
    assert!(result.is_err());
    assert_eq!(result.unwrap_err(), ValueObjectError::ClientIdEmpty);
}

#[test]
fn test_client_id_new_too_long_fails() {
    let id = "a".repeat(101);
    let result = ClientId::new(id);
    assert!(result.is_err());
    assert_eq!(
        result.unwrap_err(),
        ValueObjectError::ClientIdTooLong {
            max: 100,
            actual: 101
        }
    );
}

#[test]
fn test_client_id_equality() {
    let id1 = ClientId::new("alice".to_string()).unwrap();
    let id2 = ClientId::new("alice".to_string()).unwrap();
    let id3 = ClientId::new("bob".to_string()).unwrap();
    assert_eq!(id1, id2);
    assert_ne!(id1, id3);
}

#[test]
fn test_room_id_new_success() {
    let id = "550e8400-e29b-41d4-a716-446655440000".to_string();
    let result = RoomId::new(id.clone());
    assert!(result.is_ok());
    assert_eq!(result.unwrap().as_str(), id);
}

#[test]
fn test_room_id_new_empty_fails() {
    let id = "".to_string();
    let result = RoomId::new(id);
    assert!(result.is_err());
    assert_eq!(result.unwrap_err(), ValueObjectError::RoomIdEmpty);
}

#[test]
fn test_room_id_new_invalid_format_fails() {
    let id = "not-a-valid-uuid".to_string();
    let result = RoomId::new(id.clone());
    assert!(result.is_err());
    assert_eq!(result.unwrap_err(), ValueObjectError::RoomIdInvalidFormat(id));
}

#[test]
fn test_room_id_from_uuid() {
    let uuid = uuid::Uuid::new_v4();
    let result = RoomId::from_uuid(uuid.as_u128());
    assert!(result.is_ok());
    let room_id = result.unwrap();
    assert_eq!(room_id.as_str(), uuid.to_string());
}

#[test]
fn test_message_content_new_success() {
    let content = "Hello, world!".to_string();
    let result = MessageContent::new(content);
    assert!(result.is_ok());
    assert_eq!(result.unwrap().as_str(), "Hello, world!");
}

#[test]
fn test_message_content_new_empty_fails() {
    let content = "".to_string();
    let result = MessageContent::new(content);
    assert!(result.is_err());
    assert_eq!(result.unwrap_err(), ValueObjectError::MessageContentEmpty);
}

#[test]
fn test_message_content_new_too_long_fails() {
    let content = "a".repeat(10001);
    let result = MessageContent::new(content);
    assert!(result.is_err());
    assert_eq!(
        result.unwrap_err(),
        ValueObjectError::MessageContentTooLong {
            max: 10000,
            actual: 10001
        }
    );
}

#[test]
fn test_timestamp_new() {
    let value = 1672498800000i64;
    let timestamp = Timestamp::new(value);
    assert_eq!(timestamp.value(), value);
}

#[test]
fn test_timestamp_ordering() {
    let ts1 = Timestamp::new(1000);
    let ts2 = Timestamp::new(2000);
    assert!(ts1 < ts2);
    assert!(ts2 > ts1);
}

#[test]
fn client_id_of_exactly_one_hundred_characters_is_accepted() {
    let result = ClientId::new("b".repeat(100));
    assert_eq!(result.unwrap().into_string(), "b".repeat(100));
}

#[test]
fn client_id_length_counts_characters_not_bytes() {
    let id = "é".repeat(100);
    assert!(ClientId::new(id.clone()).is_ok());
    assert_eq!(
        ClientId::new(format!("{}é", id)).unwrap_err(),
        ValueObjectError::ClientIdTooLong {
            max: 100,
            actual: 101
        }
    );
}

#[test]
fn message_content_of_exactly_ten_thousand_characters_is_accepted() {
    let content = MessageContent::new("x".repeat(10000)).unwrap();
    assert_eq!(content.into_string().len(), 10000);
}

#[test]
fn room_id_from_known_value_is_hyphenated_lower_hex() {
    let room_id = RoomId::from_uuid(0x550e8400_e29b_41d4_a716_446655440000u128).unwrap();
    assert_eq!(room_id.as_str(), "550e8400-e29b-41d4-a716-446655440000");
    assert_eq!(
        RoomId::from_uuid(0).unwrap().into_string(),
        "00000000-0000-0000-0000-000000000000"
    );
}

#[test]
fn room_id_checked_follows_the_given_verdict() {
    assert_eq!(
        RoomId::checked("".to_string(), true).unwrap_err(),
        ValueObjectError::RoomIdEmpty
    );
    assert_eq!(
        RoomId::checked("abc".to_string(), false).unwrap_err(),
        ValueObjectError::RoomIdInvalidFormat("abc".to_string())
    );
    assert_eq!(RoomId::checked("abc".to_string(), true).unwrap().as_str(), "abc");
}

#[test]
fn room_id_accepts_simple_uuid_form() {
    let id = "550e8400e29b41d4a716446655440000".to_string();
    assert_eq!(RoomId::new(id.clone()).unwrap().into_string(), id);
}
