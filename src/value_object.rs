//! Value objects: immutable values compared by what they hold.

use vstd::prelude::*;

use crate::error::ValueObjectError;

verus! {

/// Longest client identifier, in characters.
pub const CLIENT_ID_MAX_CHARS: usize = 100;

/// Longest message content, in characters.
pub const MESSAGE_CONTENT_MAX_CHARS: usize = 10000;

/// A string is a valid client identifier when it is non-empty and has at most
/// `CLIENT_ID_MAX_CHARS` characters.
pub open spec fn valid_client_id(s: Seq<char>) -> bool {
    0 < s.len() <= CLIENT_ID_MAX_CHARS
}

/// A string is valid message content when it is non-empty and has at most
/// `MESSAGE_CONTENT_MAX_CHARS` characters.
pub open spec fn valid_message_content(s: Seq<char>) -> bool {
    0 < s.len() <= MESSAGE_CONTENT_MAX_CHARS
}

/// Whether `uuid` accepts the text as a UUID (any of its textual formats).
pub uninterp spec fn is_uuid_text(s: Seq<char>) -> bool;

/// Lower-case hexadecimal digit of `d < 16`.
pub open spec fn hex_digit(d: nat) -> char {
    seq!['0', '1', '2', '3', '4', '5', '6', '7', '8', '9', 'a', 'b', 'c', 'd', 'e', 'f'][d as int]
}

/// The last `n` hexadecimal digits of `v`, most significant first.
pub open spec fn hex_digits(v: nat, n: nat) -> Seq<char>
    decreases n,
{
    if n == 0 {
        seq![]
    } else {
        hex_digits(v / 16, (n - 1) as nat).push(hex_digit(v % 16))
    }
}

/// The hyphenated form of a 128-bit UUID value: 32 lower-case hex digits in
/// groups of 8, 4, 4, 4 and 12.
pub open spec fn uuid_text(v: u128) -> Seq<char> {
    let h = hex_digits(v as nat, 32);
    h.subrange(0, 8) + seq!['-'] + h.subrange(8, 12) + seq!['-'] + h.subrange(12, 16) + seq!['-']
        + h.subrange(16, 20) + seq!['-'] + h.subrange(20, 32)
}

/// Relies on uuid::Uuid::parse_str: whether the text parses as a UUID.
#[verifier::external_body]
fn uuid_parses(s: &str) -> (r: bool)
    ensures
        r == is_uuid_text(s@),
{
    uuid::Uuid::parse_str(s).is_ok()
}

/// Relies on uuid::Uuid::from_u128 and its hyphenated `Display`: the value's
/// big-endian bytes as lower-case hex digits in groups 8-4-4-4-12.
#[verifier::external_body]
fn uuid_hyphenated(v: u128) -> (r: String)
    ensures
        r@ == uuid_text(v),
{
    uuid::Uuid::from_u128(v).hyphenated().to_string()
}

/// Identity of a chat client: non-empty, at most `CLIENT_ID_MAX_CHARS` characters.
#[derive(Debug, Eq, Hash)]
pub struct ClientId(String);

impl View for ClientId {
    type V = Seq<char>;

    closed spec fn view(&self) -> Seq<char> {
        self.0@
    }
}

impl PartialEq for ClientId {
    fn eq(&self, o: &ClientId) -> (r: bool) {
        self.0 == o.0
    }
}

impl vstd::std_specs::cmp::PartialEqSpecImpl for ClientId {
    open spec fn obeys_eq_spec() -> bool {
        true
    }

    open spec fn eq_spec(&self, o: &ClientId) -> bool {
        self@ == o@
    }
}

impl Clone for ClientId {
    fn clone(&self) -> (r: Self)
        ensures
            r@ == self@,
    {
        ClientId(self.0.clone())
    }
}

impl ClientId {
    /// Validates `id`: an empty string and one longer than `CLIENT_ID_MAX_CHARS`
    /// characters are refused.
    pub fn new(id: String) -> (r: Result<ClientId, ValueObjectError>)
        ensures
            id@.len() == 0 ==> r == Err::<ClientId, _>(ValueObjectError::ClientIdEmpty),
            id@.len() > CLIENT_ID_MAX_CHARS ==> r == Err::<ClientId, _>(
                ValueObjectError::ClientIdTooLong {
                    max: CLIENT_ID_MAX_CHARS,
                    actual: id@.len() as usize,
                },
            ),
            valid_client_id(id@) <==> r is Ok,
            r matches Ok(c) ==> c@ == id@,
    {
        let len = id.as_str().unicode_len();
        if len == 0 {
            return Err(ValueObjectError::ClientIdEmpty);
        }
        if len > CLIENT_ID_MAX_CHARS {
            return Err(ValueObjectError::ClientIdTooLong { max: CLIENT_ID_MAX_CHARS, actual: len });
        }
        Ok(ClientId(id))
    }

    /// The identifier's text.
    pub fn as_str(&self) -> (r: &str)
        ensures
            r@ == self@,
    {
        self.0.as_str()
    }

    /// The identifier's text, taken by value.
    pub fn into_string(self) -> (r: String)
        ensures
            r@ == self@,
    {
        self.0
    }
}

/// Identifier of a room: a UUID in one of its textual forms.
#[derive(Debug, Eq, Hash)]
pub struct RoomId(String);

impl View for RoomId {
    type V = Seq<char>;

    closed spec fn view(&self) -> Seq<char> {
        self.0@
    }
}

impl PartialEq for RoomId {
    fn eq(&self, o: &RoomId) -> (r: bool) {
        self.0 == o.0
    }
}

impl vstd::std_specs::cmp::PartialEqSpecImpl for RoomId {
    open spec fn obeys_eq_spec() -> bool {
        true
    }

    open spec fn eq_spec(&self, o: &RoomId) -> bool {
        self@ == o@
    }
}

impl Clone for RoomId {
    fn clone(&self) -> (r: Self)
        ensures
            r@ == self@,
    {
        RoomId(self.0.clone())
    }
}

impl RoomId {
    /// Validates `id`: an empty string, then one that does not parse as a UUID,
    /// is refused.
    pub fn new(id: String) -> (r: Result<RoomId, ValueObjectError>)
        ensures
            id@.len() == 0 ==> r == Err::<RoomId, _>(ValueObjectError::RoomIdEmpty),
            id@.len() > 0 && !is_uuid_text(id@) ==> (r matches Err(
                ValueObjectError::RoomIdInvalidFormat(s),
            ) && s@ == id@),
            id@.len() > 0 && is_uuid_text(id@) ==> (r matches Ok(c) && c@ == id@),
    {
        let parses = uuid_parses(id.as_str());
        Self::checked(id, parses)
    }

    /// Builds the identifier from `id`, given whether `id` parses as a UUID:
    /// an empty string, then one that does not parse, is refused.
    pub fn checked(id: String, parses: bool) -> (r: Result<RoomId, ValueObjectError>)
        ensures
            id@.len() == 0 ==> r == Err::<RoomId, _>(ValueObjectError::RoomIdEmpty),
            id@.len() > 0 && !parses ==> (r matches Err(
                ValueObjectError::RoomIdInvalidFormat(s),
            ) && s@ == id@),
            id@.len() > 0 && parses ==> (r matches Ok(c) && c@ == id@),
    {
        if id.as_str().unicode_len() == 0 {
            return Err(ValueObjectError::RoomIdEmpty);
        }
        if !parses {
            return Err(ValueObjectError::RoomIdInvalidFormat(id));
        }
        Ok(RoomId(id))
    }

    /// The identifier of a 128-bit UUID value, in hyphenated lower-case form.
    pub fn from_uuid(uuid: u128) -> (r: Result<RoomId, ValueObjectError>)
        ensures
            r matches Ok(c) && c@ == uuid_text(uuid),
    {
        Ok(RoomId(uuid_hyphenated(uuid)))
    }

    /// The identifier's text.
    pub fn as_str(&self) -> (r: &str)
        ensures
            r@ == self@,
    {
        self.0.as_str()
    }

    /// The identifier's text, taken by value.
    pub fn into_string(self) -> (r: String)
        ensures
            r@ == self@,
    {
        self.0
    }
}

/// Text content of a chat message: non-empty, at most
/// `MESSAGE_CONTENT_MAX_CHARS` characters.
#[derive(Debug, Eq)]
pub struct MessageContent(String);

impl View for MessageContent {
    type V = Seq<char>;

    closed spec fn view(&self) -> Seq<char> {
        self.0@
    }
}

impl PartialEq for MessageContent {
    fn eq(&self, o: &MessageContent) -> (r: bool) {
        self.0 == o.0
    }
}

impl vstd::std_specs::cmp::PartialEqSpecImpl for MessageContent {
    open spec fn obeys_eq_spec() -> bool {
        true
    }

    open spec fn eq_spec(&self, o: &MessageContent) -> bool {
        self@ == o@
    }
}

impl Clone for MessageContent {
    fn clone(&self) -> (r: Self)
        ensures
            r@ == self@,
    {
        MessageContent(self.0.clone())
    }
}

impl MessageContent {
    /// Validates `content`: an empty string and one longer than
    /// `MESSAGE_CONTENT_MAX_CHARS` characters are refused.
    pub fn new(content: String) -> (r: Result<MessageContent, ValueObjectError>)
        ensures
            content@.len() == 0 ==> r == Err::<MessageContent, _>(
                ValueObjectError::MessageContentEmpty,
            ),
            content@.len() > MESSAGE_CONTENT_MAX_CHARS ==> r == Err::<MessageContent, _>(
                ValueObjectError::MessageContentTooLong {
                    max: MESSAGE_CONTENT_MAX_CHARS,
                    actual: content@.len() as usize,
                },
            ),
            valid_message_content(content@) <==> r is Ok,
            r matches Ok(c) ==> c@ == content@,
    {
        let len = content.as_str().unicode_len();
        if len == 0 {
            return Err(ValueObjectError::MessageContentEmpty);
        }
        if len > MESSAGE_CONTENT_MAX_CHARS {
            return Err(
                ValueObjectError::MessageContentTooLong { max: MESSAGE_CONTENT_MAX_CHARS, actual: len },
            );
        }
        Ok(MessageContent(content))
    }

    /// The content's text.
    pub fn as_str(&self) -> (r: &str)
        ensures
            r@ == self@,
    {
        self.0.as_str()
    }

    /// The content's text, taken by value.
    pub fn into_string(self) -> (r: String)
        ensures
            r@ == self@,
    {
        self.0
    }
}

/// A point in time: milliseconds since the Unix epoch.
#[derive(Debug, Clone, Copy, PartialEq, Eq, Structural, PartialOrd, Ord, Hash)]
pub struct Timestamp(i64);

impl View for Timestamp {
    type V = i64;

    closed spec fn view(&self) -> i64 {
        self.0
    }
}

impl Timestamp {
    /// The timestamp of `value` milliseconds.
    pub fn new(value: i64) -> (r: Timestamp)
        ensures
            r@ == value,
    {
        Timestamp(value)
    }

    /// The number of milliseconds.
    pub fn value(&self) -> (r: i64)
        ensures
            r == self@,
    {
        self.0
    }
}

} // verus!
