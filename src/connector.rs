//! The decisions of a room's stream connector: negotiate a stream address,
//! open it, read frames, and go back to negotiating whenever the stream
//! ends or fails. The connector never stops by itself.

use vstd::prelude::*;
use crate::event::{ChatEventType, frame_events_of, frame_events};
use crate::json::{json_of_text, str_member, str_field, parse_json};
use crate::room::chat_url;
use crate::text::{decimal, decimal_string};
use crate::web::{FormRequest, FormRequestView, field, pairs_view};

verus! {

/// Where a connector stands.
#[derive(Debug, Clone, Copy, PartialEq, Eq, Structural)]
pub enum ConnectorState {
    /// Asking the service for a stream address.
    Negotiating,
    /// Opening or reading the stream.
    Connected,
}

/// What happened since the connector's last action.
#[derive(Debug)]
pub enum ConnectorInput {
    /// The negotiation was answered with `body`; `now` is the current Unix
    /// time in seconds.
    Negotiated { body: String, now: u64 },
    /// The negotiation did not get an answer.
    NegotiationFailed,
    /// A text frame arrived.
    Frame(String),
    /// A frame that is neither text nor a close arrived.
    OtherFrame,
    /// The stream was closed, or could not be opened.
    Closed,
    /// Reading the stream failed.
    StreamError,
}

/// What the connector asks to be done next.
#[derive(Debug)]
pub enum ConnectorAction {
    /// Post the negotiation request.
    Negotiate,
    /// Open the stream at this address.
    Open(String),
    /// Hand these events, in order, to the room's handlers, then read the
    /// next frame.
    Dispatch(Vec<ChatEventType>),
    /// Read the next frame.
    Read,
}

/// The stream connector of one room.
pub struct Connector {
    room_id: u64,
    fkey: String,
    state: ConnectorState,
}

/// The stream address in a negotiation answer, if it holds one under `url`.
pub open spec fn negotiated_url(body: Seq<char>) -> Option<String> {
    match json_of_text(body) {
        Some(v) => str_member(v, "url"@),
        None => None,
    }
}

/// The address to open: the negotiated one with the freshness parameter.
pub open spec fn stream_address(url: Seq<char>, now: u64) -> Seq<char> {
    url + "?l="@ + decimal(now as nat)
}

impl Connector {
    pub closed spec fn spec_room_id(&self) -> u64 {
        self.room_id
    }

    pub closed spec fn spec_fkey(&self) -> Seq<char> {
        self.fkey@
    }

    pub closed spec fn spec_state(&self) -> ConnectorState {
        self.state
    }

    /// A connector that starts by negotiating.
    pub fn new(room_id: u64, fkey: String) -> (r: Connector)
        ensures
            r.spec_room_id() == room_id,
            r.spec_fkey() == fkey@,
            r.spec_state() == ConnectorState::Negotiating,
    {
        Connector { room_id, fkey, state: ConnectorState::Negotiating }
    }

    pub fn room_id(&self) -> (r: u64)
        ensures
            r == self.spec_room_id(),
    {
        self.room_id
    }

    pub fn state(&self) -> (r: ConnectorState)
        ensures
            r == self.spec_state(),
    {
        self.state
    }

    /// The post that asks for a stream address.
    pub fn negotiation_request(&self) -> (r: FormRequest)
        ensures
            r@ == (FormRequestView {
                url: chat_url("/ws-auth"@),
                referer: None,
                fields: seq![("roomid"@, decimal(self.spec_room_id() as nat)), ("fkey"@, self.spec_fkey())],
            }),
    {
        let id_text = decimal_string(self.room_id);
        let fields = vec![field("roomid", id_text.as_str()), field("fkey", self.fkey.as_str())];
        assert(pairs_view(fields@) =~= seq![("roomid"@, id_text@), ("fkey"@, self.fkey@)]);
        proof {
            reveal_strlit("https://chat.stackexchange.com/ws-auth");
            reveal_strlit("https://chat.stackexchange.com");
            reveal_strlit("/ws-auth");
        }
        let url = String::from_str("https://chat.stackexchange.com/ws-auth");
        assert(url@ =~= chat_url("/ws-auth"@));
        FormRequest { url, referer: None, fields }
    }

    /// Takes what happened and says what to do next.
    ///
    /// While negotiating, an answer that holds a stream address moves the
    /// connector to the stream; anything else negotiates again. On the
    /// stream, a frame that reads hands on the room's events, any other
    /// frame is passed over, and a frame that does not read, a close or a
    /// failure sends the connector back to negotiating.
    pub fn step(&mut self, input: ConnectorInput) -> (r: ConnectorAction)
        ensures
            final(self).spec_room_id() == old(self).spec_room_id(),
            final(self).spec_fkey() == old(self).spec_fkey(),
            old(self).spec_state() == ConnectorState::Negotiating ==> match input {
                ConnectorInput::Negotiated { body, now } => match negotiated_url(body@) {
                    Some(u) => final(self).spec_state() == ConnectorState::Connected
                        && (r matches ConnectorAction::Open(a) && a@ == stream_address(u@, now)),
                    None => final(self).spec_state() == ConnectorState::Negotiating
                        && r is Negotiate,
                },
                _ => final(self).spec_state() == ConnectorState::Negotiating && r is Negotiate,
            },
            old(self).spec_state() == ConnectorState::Connected ==> match input {
                ConnectorInput::Frame(text) => match json_of_text(text@) {
                    Some(v) => match frame_events_of(v, old(self).spec_room_id()) {
                        Some(evs) => final(self).spec_state() == ConnectorState::Connected
                            && (r matches ConnectorAction::Dispatch(x) && x@ == evs),
                        None => final(self).spec_state() == ConnectorState::Negotiating
                            && r is Negotiate,
                    },
                    None => final(self).spec_state() == ConnectorState::Negotiating && r is Negotiate,
                },
                ConnectorInput::OtherFrame => final(self).spec_state() == ConnectorState::Connected
                    && r is Read,
                ConnectorInput::Negotiated { .. } => final(self).spec_state() == ConnectorState::Connected
                    && r is Read,
                _ => final(self).spec_state() == ConnectorState::Negotiating && r is Negotiate,
            },
    {
        match self.state {
            ConnectorState::Negotiating => match input {
                ConnectorInput::Negotiated { body, now } => {
                    let url = match parse_json(body.as_str()) {
                        Some(v) => str_field(&v, &String::from_str("url")),
                        None => None,
                    };
                    match url {
                        Some(u) => {
                            let mut a = u;
                            a.append("?l=");
                            a.append(decimal_string(now).as_str());
                            self.state = ConnectorState::Connected;
                            ConnectorAction::Open(a)
                        },
                        None => ConnectorAction::Negotiate,
                    }
                },
                _ => ConnectorAction::Negotiate,
            },
            ConnectorState::Connected => match input {
                ConnectorInput::Frame(text) => {
                    let events = match parse_json(text.as_str()) {
                        Some(v) => frame_events(&v, self.room_id),
                        None => None,
                    };
                    match events {
                        Some(x) => ConnectorAction::Dispatch(x),
                        None => {
                            self.state = ConnectorState::Negotiating;
                            ConnectorAction::Negotiate
                        },
                    }
                },
                ConnectorInput::OtherFrame => ConnectorAction::Read,
                ConnectorInput::Negotiated { .. } => ConnectorAction::Read,
                _ => {
                    self.state = ConnectorState::Negotiating;
                    ConnectorAction::Negotiate
                },
            },
        }
    }
}

} // verus!
