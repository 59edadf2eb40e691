//! One joined room: its message buffer and the requests it makes.

use vstd::prelude::*;
use crate::error::SeError;
use crate::event::{ChatEventType, event_of, decode_event};
use crate::json::{JsonValue, json_of_text, uint_member, member_of, member, uint_field, parse_json};
use crate::message::{Message, message_of, with_arrival, merged, add_arrival, merge_batch};
use crate::text::{decimal, decimal_string};
use crate::web::{FormRequest, FormRequestView, HttpOutcome, checked_outcome, check_outcome, field, pairs_view};

verus! {

/// How many messages a room asks for when its buffer is empty.
pub const HISTORY_DEPTH: usize = 100;

/// A listing record of a room: its id and its name.
#[derive(Debug, Clone, PartialEq, Eq, Hash)]
pub struct RoomSpec {
    pub id: u64,
    pub name: String,
}

/// A joined room: the session key and user id it posts with, its id, and
/// its buffer of messages.
pub struct Room {
    fkey: String,
    user_id: u64,
    room_id: u64,
    messages: Vec<Message>,
}

/// The address of a path under the chat service.
pub open spec fn chat_url(path: Seq<char>) -> Seq<char> {
    "https://chat.stackexchange.com"@ + path
}

/// The page of a room, sent as `Referer` with the room's posts.
pub open spec fn room_page(room_id: u64) -> Seq<char> {
    chat_url("/rooms/"@ + decimal(room_id as nat))
}

/// Builds `prefix`, the room id, then `suffix`.
fn with_room_id(prefix: &str, room_id: u64, suffix: &str) -> (r: String)
    ensures
        r@ == prefix@ + decimal(room_id as nat) + suffix@,
{
    let mut s = String::from_str(prefix);
    s.append(decimal_string(room_id).as_str());
    s.append(suffix);
    s
}

/// The messages that a list of history payloads holds: those that read as
/// posted events, in order; the others are passed over.
pub open spec fn posted_messages(items: Seq<JsonValue>) -> Seq<Message> {
    items.filter_map(
        |x: JsonValue|
            match event_of(x) {
                Some(e) => message_of(e),
                None => None,
            },
    )
}

/// The messages of a history answer, if it holds an `events` list.
pub open spec fn history_of(v: JsonValue) -> Option<Seq<Message>> {
    match member_of(v, "events"@) {
        Some(JsonValue::Array(items)) => Some(posted_messages(items@)),
        _ => None,
    }
}

/// The messages of a history answer, if it holds an `events` list.
pub fn history_messages(v: &JsonValue) -> (r: Option<Vec<Message>>)
    ensures
        match r {
            Some(x) => history_of(*v) == Some(x@),
            None => history_of(*v) is None,
        },
{
    let items = match member(v, &String::from_str("events")) {
        Some(JsonValue::Array(items)) => items,
        _ => {
            return None;
        },
    };
    let mut out: Vec<Message> = Vec::new();
    let mut i: usize = 0;
    while i < items.len()
        invariant
            i <= items.len(),
            out@ == posted_messages(items@.take(i as int)),
        decreases items.len() - i,
    {
        assert(items@.take(i + 1).drop_last() =~= items@.take(i as int));
        match decode_event(&items[i]) {
            Some(e) => match Message::try_from(e) {
                Ok(m) => out.push(m),
                Err(_) => {},
            },
            None => {},
        }
        assert(items@.take(i + 1).last() == items@[i as int]);
        i = i + 1;
    }
    assert(items@.take(items.len() as int) =~= items@);
    Some(out)
}

/// The id in the answer to a sent message.
pub open spec fn sent_id_of(v: JsonValue) -> Result<u64, SeError> {
    match uint_member(v, "id"@) {
        Some(n) => Ok(n),
        None => Err(SeError::DecodeError),
    }
}

/// The id in the answer to a sent message.
pub fn read_sent_id(v: &JsonValue) -> (r: Result<u64, SeError>)
    ensures
        r == sent_id_of(*v),
{
    match uint_field(v, &String::from_str("id")) {
        Some(n) => Ok(n),
        None => Err(SeError::DecodeError),
    }
}

/// The id that the outcome of a sent message gives, or why there is none.
pub open spec fn sent_outcome(outcome: HttpOutcome) -> Result<u64, SeError> {
    match checked_outcome(outcome) {
        Err(e) => Err(e),
        Ok(body) => match json_of_text(body@) {
            Some(v) => sent_id_of(v),
            None => Err(SeError::DecodeError),
        },
    }
}

/// Form fields without any field named `fkey`, in their order.
pub open spec fn without_key(fields: Seq<(Seq<char>, Seq<char>)>) -> Seq<(Seq<char>, Seq<char>)> {
    fields.filter(|p: (Seq<char>, Seq<char>)| p.0 != "fkey"@)
}

proof fn lemma_without_key_keeps(fields: Seq<(Seq<char>, Seq<char>)>)
    requires
        forall|i: int| 0 <= i < fields.len() ==> (#[trigger] fields[i]).0 != "fkey"@,
    ensures
        without_key(fields) == fields,
    decreases fields.len(),
{
    reveal(Seq::filter);
    if fields.len() > 0 {
        lemma_without_key_keeps(fields.drop_last());
        assert(fields.drop_last().push(fields.last()) =~= fields);
    }
}

/// What taking in the outcome of a history request does to a room: on
/// success the fetched messages are merged into the buffer; on failure the
/// buffer stays as it is. Nothing else of the room changes.
pub open spec fn history_applied(before: Room, outcome: HttpOutcome, after: Room, r: Result<(), SeError>) -> bool {
    &&& after.spec_id() == before.spec_id()
    &&& after.spec_fkey() == before.spec_fkey()
    &&& after.spec_user_id() == before.spec_user_id()
    &&& match checked_outcome(outcome) {
        Err(e) => r == Err::<(), SeError>(e) && after.spec_messages() == before.spec_messages(),
        Ok(body) => match json_of_text(body@) {
            Some(v) => match history_of(v) {
                Some(batch) => r is Ok && after.spec_messages() == merged(before.spec_messages(), batch),
                None => r == Err::<(), SeError>(SeError::DecodeError) && after.spec_messages()
                    == before.spec_messages(),
            },
            None => r == Err::<(), SeError>(SeError::DecodeError) && after.spec_messages()
                == before.spec_messages(),
        },
    }
}

impl Room {
    pub closed spec fn spec_fkey(&self) -> Seq<char> {
        self.fkey@
    }

    pub closed spec fn spec_user_id(&self) -> u64 {
        self.user_id
    }

    pub closed spec fn spec_id(&self) -> u64 {
        self.room_id
    }

    pub closed spec fn spec_messages(&self) -> Seq<Message> {
        self.messages@
    }

    /// A room with an empty buffer.
    pub fn new(fkey: String, user_id: u64, room_id: u64) -> (r: Room)
        ensures
            r.spec_fkey() == fkey@,
            r.spec_user_id() == user_id,
            r.spec_id() == room_id,
            r.spec_messages() == Seq::<Message>::empty(),
    {
        Room { fkey, user_id, room_id, messages: Vec::new() }
    }

    pub fn get_id(&self) -> (r: u64)
        ensures
            r == self.spec_id(),
    {
        self.room_id
    }

    pub fn user_id(&self) -> (r: u64)
        ensures
            r == self.spec_user_id(),
    {
        self.user_id
    }

    pub fn fkey(&self) -> (r: String)
        ensures
            r@ == self.spec_fkey(),
    {
        self.fkey.clone()
    }

    /// An authenticated post of this room: any `fkey` field of the caller is
    /// dropped, the session key is added as `fkey`, and the room's page is
    /// sent as `Referer`.
    pub fn request(&self, url: String, fields: Vec<(String, String)>) -> (r: FormRequest)
        ensures
            r@ == (FormRequestView {
                url: url@,
                referer: Some(room_page(self.spec_id())),
                fields: without_key(pairs_view(fields@)).push(("fkey"@, self.spec_fkey())),
            }),
    {
        let ghost pv = pairs_view(fields@);
        let key = String::from_str("fkey");
        let mut kept: Vec<(String, String)> = Vec::new();
        let mut i: usize = 0;
        while i < fields.len()
            invariant
                i <= fields.len(),
                pv == pairs_view(fields@),
                key@ == "fkey"@,
                pairs_view(kept@) == without_key(pv.take(i as int)),
            decreases fields.len() - i,
        {
            proof {
                reveal(Seq::filter);
                assert(pv.take(i + 1).drop_last() =~= pv.take(i as int));
                assert(pv.take(i + 1).last() == (fields@[i as int].0@, fields@[i as int].1@));
            }
            if fields[i].0 != key {
                let ghost before = kept@;
                kept.push((fields[i].0.clone(), fields[i].1.clone()));
                assert(pairs_view(kept@) =~= pairs_view(before).push((fields@[i as int].0@, fields@[i as int].1@)));
            }
            i = i + 1;
        }
        assert(pv.take(fields.len() as int) =~= pv);
        let ghost before = kept@;
        kept.push((key, self.fkey.clone()));
        assert(pairs_view(kept@) =~= pairs_view(before).push(("fkey"@, self.fkey@)));
        let referer = with_room_id("https://chat.stackexchange.com/rooms/", self.room_id, "");
        proof {
            reveal_strlit("https://chat.stackexchange.com/rooms/");
            reveal_strlit("https://chat.stackexchange.com");
            reveal_strlit("/rooms/");
            reveal_strlit("");
        }
        assert(referer@ =~= room_page(self.room_id));
        FormRequest { url, referer: Some(referer), fields: kept }
    }

    /// The post that sends `msg` to the room.
    pub fn send_message_request(&self, msg: &str) -> (r: FormRequest)
        ensures
            r@ == (FormRequestView {
                url: chat_url("/chats/"@ + decimal(self.spec_id() as nat) + "/messages/new"@),
                referer: Some(room_page(self.spec_id())),
                fields: seq![("text"@, msg@), ("fkey"@, self.spec_fkey())],
            }),
    {
        let url = with_room_id("https://chat.stackexchange.com/chats/", self.room_id, "/messages/new");
        let fields = vec![field("text", msg)];
        assert(pairs_view(fields@) =~= seq![("text"@, msg@)]);
        proof {
            reveal_strlit("https://chat.stackexchange.com/chats/");
            reveal_strlit("https://chat.stackexchange.com");
            reveal_strlit("/chats/");
        }
        assert(url@ =~= chat_url("/chats/"@ + decimal(self.room_id as nat) + "/messages/new"@));
        proof {
            reveal_strlit("text");
            reveal_strlit("fkey");
            assert("text"@[0] != "fkey"@[0]);
            lemma_without_key_keeps(pairs_view(fields@));
        }
        let r = self.request(url, fields);
        assert(r@.fields =~= seq![("text"@, msg@), ("fkey"@, self.fkey@)]);
        r
    }

    /// The id of a sent message, from the outcome of its post.
    pub fn send_message_result(outcome: HttpOutcome) -> (r: Result<u64, SeError>)
        ensures
            r == sent_outcome(outcome),
    {
        match check_outcome(outcome) {
            Err(e) => Err(e),
            Ok(body) => match parse_json(body.as_str()) {
                Some(v) => read_sent_id(&v),
                None => Err(SeError::DecodeError),
            },
        }
    }

    /// Adds the message of a posted event to the buffer unless the buffer
    /// holds the same message; an edit or a deletion leaves the buffer as
    /// it is and is refused.
    pub fn apply_event(&mut self, event: ChatEventType) -> (r: Result<(), SeError>)
        ensures
            final(self).spec_id() == old(self).spec_id(),
            final(self).spec_fkey() == old(self).spec_fkey(),
            final(self).spec_user_id() == old(self).spec_user_id(),
            match message_of(event) {
                Some(m) => {
                    &&& r is Ok
                    &&& final(self).spec_messages() == with_arrival(old(self).spec_messages(), m)
                },
                None => {
                    &&& r == Err::<(), SeError>(SeError::ExpectedPostedEvent(event))
                    &&& final(self).spec_messages() == old(self).spec_messages()
                },
            },
    {
        match Message::try_from(event) {
            Ok(m) => {
                add_arrival(&mut self.messages, m);
                Ok(())
            },
            Err(e) => Err(e),
        }
    }

    /// Merges a fetched batch into the buffer: buffered messages that the
    /// batch holds the same of leave, then the batch is appended.
    pub fn merge_history(&mut self, batch: Vec<Message>)
        ensures
            final(self).spec_id() == old(self).spec_id(),
            final(self).spec_fkey() == old(self).spec_fkey(),
            final(self).spec_user_id() == old(self).spec_user_id(),
            final(self).spec_messages() == merged(old(self).spec_messages(), batch@),
    {
        merge_batch(&mut self.messages, batch);
    }

    /// The post that asks for the last `count` messages of the room.
    pub fn history_request(&self, count: usize) -> (r: FormRequest)
        ensures
            r@ == (FormRequestView {
                url: chat_url("/chats/"@ + decimal(self.spec_id() as nat) + "/events"@),
                referer: Some(room_page(self.spec_id())),
                fields: seq![
                    ("mode"@, "Messages"@),
                    ("msgCount"@, decimal(count as nat)),
                    ("since"@, "0"@),
                    ("fkey"@, self.spec_fkey()),
                ],
            }),
    {
        let url = with_room_id("https://chat.stackexchange.com/chats/", self.room_id, "/events");
        let count_text = decimal_string(count as u64);
        let fields = vec![field("mode", "Messages"), field("msgCount", count_text.as_str()), field("since", "0")];
        assert(pairs_view(fields@) =~= seq![("mode"@, "Messages"@), ("msgCount"@, count_text@), ("since"@, "0"@)]);
        proof {
            reveal_strlit("https://chat.stackexchange.com/chats/");
            reveal_strlit("https://chat.stackexchange.com");
            reveal_strlit("/chats/");
        }
        assert(url@ =~= chat_url("/chats/"@ + decimal(self.room_id as nat) + "/events"@));
        proof {
            reveal_strlit("mode");
            reveal_strlit("msgCount");
            reveal_strlit("since");
            reveal_strlit("fkey");
            assert("mode"@[0] != "fkey"@[0] && "msgCount"@[0] != "fkey"@[0] && "since"@[0] != "fkey"@[0]);
            lemma_without_key_keeps(pairs_view(fields@));
        }
        let r = self.request(url, fields);
        assert(r@.fields =~= seq![
            ("mode"@, "Messages"@),
            ("msgCount"@, decimal(count as nat)),
            ("since"@, "0"@),
            ("fkey"@, self.fkey@),
        ]);
        r
    }

    /// Takes in the outcome of a history request: on success the fetched
    /// messages are merged into the buffer; on failure the buffer stays as
    /// it is.
    pub fn apply_history(&mut self, outcome: HttpOutcome) -> (r: Result<(), SeError>)
        ensures
            history_applied(*old(self), outcome, *final(self), r),
    {
        let body = match check_outcome(outcome) {
            Ok(body) => body,
            Err(e) => {
                return Err(e);
            },
        };
        let v = match parse_json(body.as_str()) {
            Some(v) => v,
            None => {
                return Err(SeError::DecodeError);
            },
        };
        match history_messages(&v) {
            Some(batch) => {
                self.merge_history(batch);
                Ok(())
            },
            None => Err(SeError::DecodeError),
        }
    }

    /// Whether the buffer is empty, so that reading it first fetches the
    /// last `HISTORY_DEPTH` messages.
    pub fn needs_history(&self) -> (r: bool)
        ensures
            r == (self.spec_messages().len() == 0),
    {
        self.messages.len() == 0
    }

    /// A copy of the buffer, in order.
    pub fn messages(&self) -> (r: Vec<Message>)
        ensures
            r@ == self.spec_messages(),
    {
        let mut out: Vec<Message> = Vec::new();
        let mut i: usize = 0;
        while i < self.messages.len()
            invariant
                i <= self.messages.len(),
                out@ == self.messages@.take(i as int),
            decreases self.messages.len() - i,
        {
            out.push(self.messages[i].duplicate());
            assert(self.messages@.take(i + 1) =~= self.messages@.take(i as int).push(self.messages@[i as int]));
            i = i + 1;
        }
        assert(self.messages@.take(self.messages.len() as int) =~= self.messages@);
        out
    }

    /// The post that tells the service that the room is left.
    pub fn leave_request(&self) -> (r: FormRequest)
        ensures
            r@ == (FormRequestView {
                url: chat_url("/chats/leave/"@ + decimal(self.spec_id() as nat)),
                referer: Some(room_page(self.spec_id())),
                fields: seq![("fkey"@, self.spec_fkey())],
            }),
    {
        let url = with_room_id("https://chat.stackexchange.com/chats/leave/", self.room_id, "");
        let fields: Vec<(String, String)> = Vec::new();
        assert(pairs_view(fields@) =~= Seq::<(Seq<char>, Seq<char>)>::empty());
        proof {
            reveal_strlit("https://chat.stackexchange.com/chats/leave/");
            reveal_strlit("https://chat.stackexchange.com");
            reveal_strlit("/chats/leave/");
            reveal_strlit("");
        }
        assert(url@ =~= chat_url("/chats/leave/"@ + decimal(self.room_id as nat)));
        proof {
            lemma_without_key_keeps(pairs_view(fields@));
        }
        let r = self.request(url, fields);
        assert(r@.fields =~= seq![("fkey"@, self.fkey@)]);
        r
    }
}

} // verus!
