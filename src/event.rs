//! Chat events: the envelope shared by every event, the three payload
//! shapes, and how they are read from and written to JSON.

use vstd::prelude::*;
use crate::json::{
    JsonValue, field_of, member_of, uint_member, str_member, json_of_text, member, uint_field,
    str_field, parse_json,
};
use crate::text::{decimal, decimal_string};

verus! {

/// The envelope that every chat event carries. `timestamp` is in seconds
/// since the Unix epoch.
#[derive(Debug, Clone, PartialEq, Eq)]
pub struct ChatEvent {
    pub id: u64,
    pub message_id: u64,
    pub room_id: u64,
    pub room_name: String,
    pub timestamp: u64,
    pub user_id: u64,
    pub username: String,
}

/// An event with its payload: a posted message, an edit of one, or a
/// deletion.
#[derive(Debug, Clone, PartialEq, Eq)]
pub enum ChatEventType {
    Edit { event: ChatEvent, message_edits: u64, content: String },
    Message { event: ChatEvent, content: String },
    Delete { event: ChatEvent },
}

impl ChatEventType {
    pub open spec fn envelope(self) -> ChatEvent {
        match self {
            ChatEventType::Edit { event, .. } => event,
            ChatEventType::Message { event, .. } => event,
            ChatEventType::Delete { event } => event,
        }
    }
}

/// The envelope read from an object: every one of its seven fields must be
/// there with the right kind of value.
pub open spec fn envelope_of(v: JsonValue) -> Option<ChatEvent> {
    match (
        uint_member(v, "id"@),
        uint_member(v, "message_id"@),
        uint_member(v, "room_id"@),
        str_member(v, "room_name"@),
        uint_member(v, "time_stamp"@),
        uint_member(v, "user_id"@),
        str_member(v, "user_name"@),
    ) {
        (Some(id), Some(message_id), Some(room_id), Some(room_name), Some(timestamp), Some(user_id), Some(username)) =>
            Some(ChatEvent { id, message_id, room_id, room_name, timestamp, user_id, username }),
        _ => None,
    }
}

/// The event read from an object. The payload shapes are tried in a fixed
/// order: an edit (edit count and content), then a post (content), else a
/// deletion.
pub open spec fn event_of(v: JsonValue) -> Option<ChatEventType> {
    match envelope_of(v) {
        None => None,
        Some(event) => match (uint_member(v, "message_edits"@), str_member(v, "content"@)) {
            (Some(message_edits), Some(content)) => Some(ChatEventType::Edit { event, message_edits, content }),
            (_, Some(content)) => Some(ChatEventType::Message { event, content }),
            _ => Some(ChatEventType::Delete { event }),
        },
    }
}

/// Reads an event from a JSON value.
pub fn decode_event(v: &JsonValue) -> (r: Option<ChatEventType>)
    ensures
        r == event_of(*v),
{
    let id = uint_field(v, &String::from_str("id"));
    let message_id = uint_field(v, &String::from_str("message_id"));
    let room_id = uint_field(v, &String::from_str("room_id"));
    let room_name = str_field(v, &String::from_str("room_name"));
    let timestamp = uint_field(v, &String::from_str("time_stamp"));
    let user_id = uint_field(v, &String::from_str("user_id"));
    let username = str_field(v, &String::from_str("user_name"));
    let event = match (id, message_id, room_id, room_name, timestamp, user_id, username) {
        (Some(id), Some(message_id), Some(room_id), Some(room_name), Some(timestamp), Some(user_id), Some(username)) =>
            ChatEvent { id, message_id, room_id, room_name, timestamp, user_id, username },
        _ => {
            return None;
        },
    };
    let edits = uint_field(v, &String::from_str("message_edits"));
    let content = str_field(v, &String::from_str("content"));
    match (edits, content) {
        (Some(message_edits), Some(content)) => Some(ChatEventType::Edit { event, message_edits, content }),
        (_, Some(content)) => Some(ChatEventType::Message { event, content }),
        _ => Some(ChatEventType::Delete { event }),
    }
}

/// Entry `i` of an object holds `key` and `v`.
pub open spec fn entry_is(f: Seq<(String, JsonValue)>, i: int, key: Seq<char>, v: JsonValue) -> bool {
    f[i].0@ == key && f[i].1 == v
}

/// The first seven entries of `f` are the envelope `e`, in wire order.
pub open spec fn envelope_entries(f: Seq<(String, JsonValue)>, e: ChatEvent) -> bool {
    &&& f.len() >= 7
    &&& entry_is(f, 0, "id"@, JsonValue::Uint(e.id))
    &&& entry_is(f, 1, "message_id"@, JsonValue::Uint(e.message_id))
    &&& entry_is(f, 2, "room_id"@, JsonValue::Uint(e.room_id))
    &&& entry_is(f, 3, "room_name"@, JsonValue::Str(e.room_name))
    &&& entry_is(f, 4, "time_stamp"@, JsonValue::Uint(e.timestamp))
    &&& entry_is(f, 5, "user_id"@, JsonValue::Uint(e.user_id))
    &&& entry_is(f, 6, "user_name"@, JsonValue::Str(e.username))
}

/// `v` is the wire shape of `ev`: the envelope, then `content` for an edit
/// or a post, then `message_edits` for an edit, and nothing else.
pub open spec fn wire_form(v: JsonValue, ev: ChatEventType) -> bool {
    match v {
        JsonValue::Object(fields) => {
            let f = fields@;
            match ev {
                ChatEventType::Edit { event, message_edits, content } => {
                    &&& f.len() == 9
                    &&& envelope_entries(f, event)
                    &&& entry_is(f, 7, "content"@, JsonValue::Str(content))
                    &&& entry_is(f, 8, "message_edits"@, JsonValue::Uint(message_edits))
                },
                ChatEventType::Message { event, content } => {
                    &&& f.len() == 8
                    &&& envelope_entries(f, event)
                    &&& entry_is(f, 7, "content"@, JsonValue::Str(content))
                },
                ChatEventType::Delete { event } => {
                    &&& f.len() == 7
                    &&& envelope_entries(f, event)
                },
            }
        },
        _ => false,
    }
}

fn push_entry(f: &mut Vec<(String, JsonValue)>, key: &str, v: JsonValue)
    ensures
        final(f)@.len() == old(f)@.len() + 1,
        final(f)@.drop_last() == old(f)@,
        final(f)@.last().0@ == key@,
        final(f)@.last().1 == v,
{
    f.push((String::from_str(key), v));
    assert(final(f)@.drop_last() =~= old(f)@);
}

/// Writes an event in its wire shape.
pub fn encode_event(ev: &ChatEventType) -> (v: JsonValue)
    ensures
        wire_form(v, *ev),
{
    let e = match ev {
        ChatEventType::Edit { event, .. } => event,
        ChatEventType::Message { event, .. } => event,
        ChatEventType::Delete { event } => event,
    };
    let mut f: Vec<(String, JsonValue)> = Vec::new();
    push_entry(&mut f, "id", JsonValue::Uint(e.id));
    push_entry(&mut f, "message_id", JsonValue::Uint(e.message_id));
    push_entry(&mut f, "room_id", JsonValue::Uint(e.room_id));
    push_entry(&mut f, "room_name", JsonValue::Str(e.room_name.clone()));
    push_entry(&mut f, "time_stamp", JsonValue::Uint(e.timestamp));
    push_entry(&mut f, "user_id", JsonValue::Uint(e.user_id));
    push_entry(&mut f, "user_name", JsonValue::Str(e.username.clone()));
    match ev {
        ChatEventType::Edit { message_edits, content, .. } => {
            push_entry(&mut f, "content", JsonValue::Str(content.clone()));
            push_entry(&mut f, "message_edits", JsonValue::Uint(*message_edits));
        },
        ChatEventType::Message { content, .. } => {
            push_entry(&mut f, "content", JsonValue::Str(content.clone()));
        },
        ChatEventType::Delete { .. } => {},
    }
    JsonValue::Object(f)
}

proof fn lemma_field_at(f: Seq<(String, JsonValue)>, i: int, key: Seq<char>)
    requires
        0 <= i < f.len(),
        f[i].0@ == key,
        forall|j: int| 0 <= j < i ==> f[j].0@ != key,
    ensures
        field_of(f, key) == Some(f[i].1),
    decreases i,
{
    if i > 0 {
        lemma_field_at(f.drop_first(), i - 1, key);
    }
}

proof fn lemma_field_absent(f: Seq<(String, JsonValue)>, key: Seq<char>)
    requires
        forall|j: int| 0 <= j < f.len() ==> f[j].0@ != key,
    ensures
        field_of(f, key) is None,
    decreases f.len(),
{
    if f.len() > 0 {
        lemma_field_absent(f.drop_first(), key);
    }
}

/// Decoding the wire shape of an event gives that event back, for each of
/// the three shapes.
pub proof fn lemma_decode_encode(v: JsonValue, ev: ChatEventType)
    requires
        wire_form(v, ev),
    ensures
        event_of(v) == Some(ev),
{
    reveal_strlit("id");
    reveal_strlit("message_id");
    reveal_strlit("room_id");
    reveal_strlit("room_name");
    reveal_strlit("time_stamp");
    reveal_strlit("user_id");
    reveal_strlit("user_name");
    reveal_strlit("content");
    reveal_strlit("message_edits");
    assert("id"@.len() == 2 && "message_id"@.len() == 10 && "room_id"@.len() == 7);
    assert("room_name"@.len() == 9 && "time_stamp"@.len() == 10 && "user_id"@.len() == 7);
    assert("user_name"@.len() == 9 && "content"@.len() == 7 && "message_edits"@.len() == 13);
    assert("message_id"@[0] == 'm' && "time_stamp"@[0] == 't');
    assert("room_id"@[0] == 'r' && "user_id"@[0] == 'u' && "content"@[0] == 'c');
    assert("room_name"@[0] == 'r' && "user_name"@[0] == 'u');
    if let JsonValue::Object(fields) = v {
        let f = fields@;
        lemma_field_at(f, 0, "id"@);
        lemma_field_at(f, 1, "message_id"@);
        lemma_field_at(f, 2, "room_id"@);
        lemma_field_at(f, 3, "room_name"@);
        lemma_field_at(f, 4, "time_stamp"@);
        lemma_field_at(f, 5, "user_id"@);
        lemma_field_at(f, 6, "user_name"@);
        match ev {
            ChatEventType::Edit { .. } => {
                lemma_field_at(f, 7, "content"@);
                lemma_field_at(f, 8, "message_edits"@);
            },
            ChatEventType::Message { .. } => {
                lemma_field_at(f, 7, "content"@);
                lemma_field_absent(f, "message_edits"@);
            },
            ChatEventType::Delete { .. } => {
                lemma_field_absent(f, "content"@);
                lemma_field_absent(f, "message_edits"@);
            },
        }
    }
}

/// The name of a room's channel in a stream frame: `r` and the room id.
pub open spec fn channel_key(room_id: u64) -> Seq<char> {
    "r"@ + decimal(room_id as nat)
}

/// The events read from a list of payloads, if every one of them reads.
pub open spec fn events_of(items: Seq<JsonValue>) -> Option<Seq<ChatEventType>> {
    if forall|i: int| 0 <= i < items.len() ==> (#[trigger] event_of(items[i])) is Some {
        Some(Seq::new(items.len(), |i: int| event_of(items[i])->0))
    } else {
        None
    }
}

/// The events that a stream frame carries for one room, in order. A frame
/// that names the room under another key, or holds no `e` list for it,
/// carries none. `None` means the frame is malformed: it is not an object,
/// the room's entry is not an object, its `e` is not a list, or one payload
/// in the list is not an event.
pub open spec fn frame_events_of(frame: JsonValue, room_id: u64) -> Option<Seq<ChatEventType>> {
    match frame {
        JsonValue::Object(_) => match member_of(frame, channel_key(room_id)) {
            None => Some(Seq::empty()),
            Some(entry) => match entry {
                JsonValue::Object(_) => match member_of(entry, "e"@) {
                    None => Some(Seq::empty()),
                    Some(JsonValue::Array(items)) => events_of(items@),
                    Some(_) => None,
                },
                _ => None,
            },
        },
        _ => None,
    }
}

/// Reads every payload of a list as an event; `None` if one of them is not.
pub fn decode_events(items: &Vec<JsonValue>) -> (r: Option<Vec<ChatEventType>>)
    ensures
        match r {
            Some(x) => events_of(items@) == Some(x@),
            None => events_of(items@) is None,
        },
{
    let mut out: Vec<ChatEventType> = Vec::new();
    let mut i: usize = 0;
    while i < items.len()
        invariant
            i <= items.len(),
            out.len() == i,
            forall|j: int| 0 <= j < i ==> event_of(#[trigger] items@[j]) == Some(out@[j]),
        decreases items.len() - i,
    {
        match decode_event(&items[i]) {
            Some(e) => out.push(e),
            None => {
                return None;
            },
        }
        i = i + 1;
    }
    assert(out@ =~= Seq::new(items@.len(), |j: int| event_of(items@[j])->0));
    Some(out)
}

/// The events that a decoded stream frame carries for `room_id`.
pub fn frame_events(frame: &JsonValue, room_id: u64) -> (r: Option<Vec<ChatEventType>>)
    ensures
        match r {
            Some(x) => frame_events_of(*frame, room_id) == Some(x@),
            None => frame_events_of(*frame, room_id) is None,
        },
{
    if !matches!(frame, JsonValue::Object(_)) {
        return None;
    }
    let mut key = String::from_str("r");
    key.append(decimal_string(room_id).as_str());
    match member(frame, &key) {
        None => Some(Vec::new()),
        Some(entry) => {
            if !matches!(entry, JsonValue::Object(_)) {
                return None;
            }
            match member(entry, &String::from_str("e")) {
                None => Some(Vec::new()),
                Some(JsonValue::Array(items)) => decode_events(items),
                Some(_) => None,
            }
        },
    }
}

/// The events that the text of a stream frame carries for `room_id`;
/// `None` when the text is not JSON or the frame is malformed.
pub fn read_frame(text: &str, room_id: u64) -> (r: Option<Vec<ChatEventType>>)
    ensures
        match json_of_text(text@) {
            Some(v) => match r {
                Some(x) => frame_events_of(v, room_id) == Some(x@),
                None => frame_events_of(v, room_id) is None,
            },
            None => r is None,
        },
{
    match parse_json(text) {
        Some(v) => frame_events(&v, room_id),
        None => None,
    }
}

} // verus!
