//! The events sent to participants, as JSON text objects that carry their kind
//! in a `type` field, and the chat payload read from participants.

use vstd::prelude::*;

verus! {

/// The JSON string literal that `serde_json` writes for the text `s`.
pub uninterp spec fn json_quoted(s: Seq<char>) -> Seq<char>;

/// Decimal digit of `d < 10`.
pub open spec fn decimal_digit(d: nat) -> char {
    seq!['0', '1', '2', '3', '4', '5', '6', '7', '8', '9'][d as int]
}

/// The decimal digits of `n`, most significant first, without leading zeros.
pub open spec fn decimal_digits(n: nat) -> Seq<char>
    decreases n,
{
    if n < 10 {
        seq![decimal_digit(n)]
    } else {
        decimal_digits(n / 10).push(decimal_digit(n % 10))
    }
}

/// The decimal form of an integer: a minus sign for a negative one, then its digits.
pub open spec fn decimal_text(v: int) -> Seq<char> {
    if v < 0 {
        seq!['-'] + decimal_digits((-v) as nat)
    } else {
        decimal_digits(v as nat)
    }
}

/// Relies on serde_json::to_string for `str`: the text as a JSON string literal.
/// Serialising a `str` cannot fail.
#[verifier::external_body]
fn json_string(s: &str) -> (r: String)
    ensures
        r@ == json_quoted(s@),
{
    serde_json::to_string(s).unwrap_or_default()
}

/// Relies on serde_json::to_string for `i64`: the number in decimal, with a
/// leading minus sign when negative. Serialising an `i64` cannot fail.
#[verifier::external_body]
fn json_number(v: i64) -> (r: String)
    ensures
        r@ == decimal_text(v as int),
{
    serde_json::to_string(&v).unwrap_or_default()
}

/// Items separated by commas.
pub open spec fn comma_joined(items: Seq<Seq<char>>) -> Seq<char>
    decreases items.len(),
{
    if items.len() == 0 {
        seq![]
    } else if items.len() == 1 {
        items[0]
    } else {
        comma_joined(items.drop_last()) + ","@ + items.last()
    }
}

/// One entry of a participant list, from the identity already written as a JSON string.
pub open spec fn participant_frame(id_json: Seq<char>, connected_at: i64) -> Seq<char> {
    "{\"client_id\":"@ + id_json + ",\"connected_at\":"@ + decimal_text(connected_at as int)
        + "}"@
}

/// The snapshot event, from its list entries already written as JSON.
pub open spec fn room_connected_frame(entries: Seq<Seq<char>>) -> Seq<char> {
    "{\"type\":\"room-connected\",\"participants\":["@ + comma_joined(entries) + "]}"@
}

/// The arrival event, from the identity already written as a JSON string.
pub open spec fn participant_joined_frame(id_json: Seq<char>, connected_at: i64) -> Seq<char> {
    "{\"type\":\"participant-joined\",\"client_id\":"@ + id_json + ",\"connected_at\":"@
        + decimal_text(connected_at as int) + "}"@
}

/// The departure event, from the identity already written as a JSON string.
pub open spec fn participant_left_frame(id_json: Seq<char>, disconnected_at: i64) -> Seq<char> {
    "{\"type\":\"participant-left\",\"client_id\":"@ + id_json + ",\"disconnected_at\":"@
        + decimal_text(disconnected_at as int) + "}"@
}

/// The chat event, from the identity and content already written as JSON strings.
pub open spec fn chat_frame(id_json: Seq<char>, content_json: Seq<char>, timestamp: i64) -> Seq<
    char,
> {
    "{\"type\":\"chat\",\"client_id\":"@ + id_json + ",\"content\":"@ + content_json
        + ",\"timestamp\":"@ + decimal_text(timestamp as int) + "}"@
}

/// The list entry of participant `p`.
pub open spec fn participant_json(p: (Seq<char>, i64)) -> Seq<char> {
    participant_frame(json_quoted(p.0), p.1)
}

/// The snapshot event listing `participants` in order.
pub open spec fn room_connected_json(participants: Seq<(Seq<char>, i64)>) -> Seq<char> {
    room_connected_frame(participants.map_values(|p: (Seq<char>, i64)| participant_json(p)))
}

/// The event telling that `id` arrived at `connected_at`.
pub open spec fn participant_joined_json(id: Seq<char>, connected_at: i64) -> Seq<char> {
    participant_joined_frame(json_quoted(id), connected_at)
}

/// The event telling that `id` left at `disconnected_at`.
pub open spec fn participant_left_json(id: Seq<char>, disconnected_at: i64) -> Seq<char> {
    participant_left_frame(json_quoted(id), disconnected_at)
}

/// The chat event carrying `content` from `id`, stamped `timestamp`.
pub open spec fn chat_json(id: Seq<char>, content: Seq<char>, timestamp: i64) -> Seq<char> {
    chat_frame(json_quoted(id), json_quoted(content), timestamp)
}

/// A participant as listed in the snapshot event.
#[derive(Debug, PartialEq, Eq)]
pub struct ParticipantInfo {
    pub client_id: String,
    pub connected_at: i64,
}

impl View for ParticipantInfo {
    type V = (Seq<char>, i64);

    open spec fn view(&self) -> (Seq<char>, i64) {
        (self.client_id@, self.connected_at)
    }
}

/// The payload of a chat event: who sent what, and when.
#[derive(Debug, PartialEq, Eq)]
pub struct ChatPayload {
    pub client_id: String,
    pub content: String,
    pub timestamp: i64,
}

impl View for ChatPayload {
    type V = (Seq<char>, Seq<char>, i64);

    open spec fn view(&self) -> (Seq<char>, Seq<char>, i64) {
        (self.client_id@, self.content@, self.timestamp)
    }
}

/// Identity given to a chat frame that is not a chat envelope.
pub const UNKNOWN_SENDER: &'static str = "unknown";

/// The chat payload of an inbound text frame: the decoded envelope when the text
/// was one, otherwise the raw text from an unknown sender at time zero.
pub fn inbound_chat(decoded: Option<ChatPayload>, raw: String) -> (r: ChatPayload)
    ensures
        decoded matches Some(p) ==> r@ == p@,
        decoded is None ==> r@ == (UNKNOWN_SENDER@, raw@, 0i64),
{
    match decoded {
        Some(p) => p,
        None => ChatPayload { client_id: UNKNOWN_SENDER.to_string(), content: raw, timestamp: 0 },
    }
}

/// Appends `piece` to `out`.
fn append_str(out: &mut String, piece: &str)
    ensures
        final(out)@ == old(out)@ + piece@,
{
    out.append(piece);
}

/// A participant list entry, from the identity already written as a JSON string.
pub fn frame_participant(id_json: &str, connected_at: i64) -> (r: String)
    ensures
        r@ == participant_frame(id_json@, connected_at),
{
    let mut out = String::from_str("{\"client_id\":");
    append_str(&mut out, id_json);
    append_str(&mut out, ",\"connected_at\":");
    let n = json_number(connected_at);
    append_str(&mut out, n.as_str());
    append_str(&mut out, "}");
    out
}

/// The snapshot event, from list entries already written as JSON.
pub fn frame_room_connected(entries: &Vec<String>) -> (r: String)
    ensures
        r@ == room_connected_frame(entries@.map_values(|e: String| e@)),
{
    let ghost views = entries@.map_values(|e: String| e@);
    let mut out = String::from_str("{\"type\":\"room-connected\",\"participants\":[");
    let ghost head = out@;
    let mut i: usize = 0;
    while i < entries.len()
        invariant
            0 <= i <= entries@.len(),
            views == entries@.map_values(|e: String| e@),
            out@ == head + comma_joined(views.subrange(0, i as int)),
        decreases entries@.len() - i,
    {
        proof {
            let pre = views.subrange(0, i as int);
            let next = views.subrange(0, i + 1);
            assert(next.drop_last() =~= pre);
            assert(next.last() == entries@[i as int]@);
            if i == 0 {
                assert(next.len() == 1);
                assert(comma_joined(pre) =~= seq![]);
            }
        }
        if i > 0 {
            append_str(&mut out, ",");
        }
        append_str(&mut out, entries[i].as_str());
        assert(out@ =~= head + comma_joined(views.subrange(0, i + 1)));
        i = i + 1;
    }
    assert(views.subrange(0, i as int) =~= views);
    append_str(&mut out, "]}");
    out
}

/// The arrival event, from the identity already written as a JSON string.
pub fn frame_participant_joined(id_json: &str, connected_at: i64) -> (r: String)
    ensures
        r@ == participant_joined_frame(id_json@, connected_at),
{
    let mut out = String::from_str("{\"type\":\"participant-joined\",\"client_id\":");
    append_str(&mut out, id_json);
    append_str(&mut out, ",\"connected_at\":");
    let n = json_number(connected_at);
    append_str(&mut out, n.as_str());
    append_str(&mut out, "}");
    out
}

/// The departure event, from the identity already written as a JSON string.
pub fn frame_participant_left(id_json: &str, disconnected_at: i64) -> (r: String)
    ensures
        r@ == participant_left_frame(id_json@, disconnected_at),
{
    let mut out = String::from_str("{\"type\":\"participant-left\",\"client_id\":");
    append_str(&mut out, id_json);
    append_str(&mut out, ",\"disconnected_at\":");
    let n = json_number(disconnected_at);
    append_str(&mut out, n.as_str());
    append_str(&mut out, "}");
    out
}

/// The chat event, from the identity and content already written as JSON strings.
pub fn frame_chat(id_json: &str, content_json: &str, timestamp: i64) -> (r: String)
    ensures
        r@ == chat_frame(id_json@, content_json@, timestamp),
{
    let mut out = String::from_str("{\"type\":\"chat\",\"client_id\":");
    append_str(&mut out, id_json);
    append_str(&mut out, ",\"content\":");
    append_str(&mut out, content_json);
    append_str(&mut out, ",\"timestamp\":");
    let n = json_number(timestamp);
    append_str(&mut out, n.as_str());
    append_str(&mut out, "}");
    out
}

/// The snapshot event listing `participants` in order.
pub fn encode_room_connected(participants: &Vec<ParticipantInfo>) -> (r: String)
    ensures
        r@ == room_connected_json(participants@.map_values(|p: ParticipantInfo| p@)),
{
    let ghost views = participants@.map_values(|p: ParticipantInfo| p@);
    let mut entries: Vec<String> = Vec::new();
    let mut i: usize = 0;
    while i < participants.len()
        invariant
            0 <= i <= participants@.len(),
            entries@.len() == i,
            views == participants@.map_values(|p: ParticipantInfo| p@),
            forall|j: int| 0 <= j < i ==> entries@[j]@ == participant_json(views[j]),
        decreases participants@.len() - i,
    {
        let p = &participants[i];
        let id_json = json_string(p.client_id.as_str());
        entries.push(frame_participant(id_json.as_str(), p.connected_at));
        i = i + 1;
    }
    assert(entries@.map_values(|e: String| e@) =~= views.map_values(
        |p: (Seq<char>, i64)| participant_json(p),
    ));
    frame_room_connected(&entries)
}

/// The event telling that `client_id` arrived at `connected_at`.
pub fn encode_participant_joined(client_id: &str, connected_at: i64) -> (r: String)
    ensures
        r@ == participant_joined_json(client_id@, connected_at),
{
    let id_json = json_string(client_id);
    frame_participant_joined(id_json.as_str(), connected_at)
}

/// The event telling that `client_id` left at `disconnected_at`.
pub fn encode_participant_left(client_id: &str, disconnected_at: i64) -> (r: String)
    ensures
        r@ == participant_left_json(client_id@, disconnected_at),
{
    let id_json = json_string(client_id);
    frame_participant_left(id_json.as_str(), disconnected_at)
}

/// The chat event carrying `payload`.
pub fn encode_chat(payload: &ChatPayload) -> (r: String)
    ensures
        r@ == chat_json(payload.client_id@, payload.content@, payload.timestamp),
{
    let id_json = json_string(payload.client_id.as_str());
    let content_json = json_string(payload.content.as_str());
    frame_chat(id_json.as_str(), content_json.as_str(), payload.timestamp)
}

} // verus!
