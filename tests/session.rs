use se_chat::error::SeError;
use se_chat::event::{ChatEvent, ChatEventType};
use se_chat::login::{Authenticated, LoginFlow, LoginNext, LoginStage};
use se_chat::message::{add_arrival, contains_same, merge_batch, Message};
use se_chat::room::{read_sent_id, history_messages, Room, HISTORY_DEPTH};
use se_chat::json::parse_json;
use se_chat::user::{Joined, User};
use se_chat::web::{check_outcome, HttpCall, HttpOutcome};

fn msg(id: u64, content: &str, username: &str) -> Message {
    Message {
        id,
        content: content.to_string(),
        user_id: 5,
        room_id: 1,
        username: username.to_string(),
        timestamp: 10,
    }
}

fn posted(message_id: u64, content: &str, username: &str) -> ChatEventType {
    ChatEventType::Message {
        event: ChatEvent {
            id: message_id + 1000,
            message_id,
            room_id: 1,
            room_name: "Sandbox".to_string(),
            timestamp: 10,
            user_id: 5,
            username: username.to_string(),
        },
        content: content.to_string(),
    }
}

fn room_ids(u: &User) -> Vec<u64> {
    let mut ids: Vec<u64> = u.get_rooms().iter().map(|r| r.get_id()).collect();
    ids.sort();
    ids
}

fn logged_in() -> User {
    let mut u = User::new();
    u.finish_login(Ok(Authenticated { fkey: "k".to_string(), user_id: 42 })).unwrap();
    u
}

fn answer(status: u16, body: &str) -> HttpOutcome {
    HttpOutcome::Answer { status, body: body.to_string() }
}

#[test]
fn identity_is_id_or_content_and_author() {
    assert!(msg(1, "a", "x") == msg(1, "b", "y"));
    assert!(msg(1, "a", "x") == msg(2, "a", "x"));
    assert!(msg(1, "a", "x") != msg(2, "a", "y"));
    assert!(msg(1, "a", "x") != msg(2, "b", "x"));
    assert!(contains_same(&vec![msg(1, "a", "x")], &msg(9, "a", "x")));
}

#[test]
fn only_posted_events_become_messages() {
    let m = Message::try_from(posted(100, "hi", "Seggan")).unwrap();
    assert_eq!(m.id, 100);
    assert_eq!(m.content, "hi");
    assert_eq!(m.username, "Seggan");
    assert_eq!(m.user_id, 5);
    assert_eq!(m.room_id, 1);
    assert_eq!(m.timestamp, 10);
    let ev = ChatEventType::Delete { event: ChatEvent {
        id: 1, message_id: 2, room_id: 1, room_name: "S".to_string(), timestamp: 3, user_id: 4,
        username: "u".to_string(),
    } };
    assert_eq!(Message::try_from(ev.clone()).unwrap_err(), SeError::ExpectedPostedEvent(ev));
}

#[test]
fn arrival_skips_same_message() {
    let mut buf = vec![msg(1, "a", "x")];
    add_arrival(&mut buf, msg(2, "a", "x"));
    assert_eq!(buf.len(), 1);
    assert_eq!(buf[0].id, 1);
    add_arrival(&mut buf, msg(3, "b", "x"));
    assert_eq!(buf.len(), 2);
    assert_eq!(buf[1].id, 3);
}

#[test]
fn history_merge_replaces_and_appends() {
    let mut buf = vec![msg(1, "a", "x"), msg(2, "b", "x"), msg(3, "c", "y")];
    merge_batch(&mut buf, vec![msg(3, "c2", "y"), msg(4, "b", "x")]);
    let ids: Vec<u64> = buf.iter().map(|m| m.id).collect();
    assert_eq!(ids, vec![1, 3, 4]);
    assert_eq!(buf[1].content, "c2");
}

#[test]
fn merged_buffer_has_no_duplicates() {
    let mut buf = Vec::new();
    merge_batch(&mut buf, vec![msg(1, "a", "x"), msg(2, "b", "x")]);
    merge_batch(&mut buf, vec![msg(2, "b", "x"), msg(3, "a", "x")]);
    merge_batch(&mut buf, vec![msg(4, "d", "z")]);
    for i in 0..buf.len() {
        for j in (i + 1)..buf.len() {
            assert!(buf[i] != buf[j]);
        }
    }
    assert_eq!(buf.len(), 3);
}

#[test]
fn status_409_is_rate_limited() {
    assert_eq!(check_outcome(answer(409, "slow down")), Err(SeError::RateLimited));
    assert_eq!(Room::send_message_result(answer(409, "x")), Err(SeError::RateLimited));
    assert_eq!(check_outcome(answer(500, "oops")), Err(SeError::BadResponse(500, "oops".to_string())));
    assert_eq!(check_outcome(answer(204, "")), Ok(String::new()));
    assert_eq!(
        check_outcome(HttpOutcome::Transport("refused".to_string())),
        Err(SeError::TransportError("refused".to_string()))
    );
}

#[test]
fn sent_message_id_is_read() {
    assert_eq!(Room::send_message_result(answer(200, "{\"id\": 200}")), Ok(200));
    assert_eq!(Room::send_message_result(answer(200, "{\"time\": 1}")), Err(SeError::DecodeError));
    assert_eq!(Room::send_message_result(answer(200, "<html>")), Err(SeError::DecodeError));
    assert_eq!(read_sent_id(&parse_json("{\"id\":7}").unwrap()), Ok(7));
}

#[test]
fn room_requests_carry_key_and_referer() {
    let room = Room::new("abc".to_string(), 42, 7);
    let send = room.send_message_request("42");
    assert_eq!(send.url, "https://chat.stackexchange.com/chats/7/messages/new");
    assert_eq!(send.referer.as_deref(), Some("https://chat.stackexchange.com/rooms/7"));
    assert_eq!(
        send.fields,
        vec![("text".to_string(), "42".to_string()), ("fkey".to_string(), "abc".to_string())]
    );
    let hist = room.history_request(HISTORY_DEPTH);
    assert_eq!(hist.url, "https://chat.stackexchange.com/chats/7/events");
    let f: Vec<(&str, &str)> = hist.fields.iter().map(|(a, b)| (a.as_str(), b.as_str())).collect();
    assert_eq!(f, vec![("mode", "Messages"), ("msgCount", "100"), ("since", "0"), ("fkey", "abc")]);
    let leave = room.leave_request();
    assert_eq!(leave.url, "https://chat.stackexchange.com/chats/leave/7");
    assert_eq!(leave.fields, vec![("fkey".to_string(), "abc".to_string())]);
}

#[test]
fn history_keeps_only_posts() {
    let body = "{\"events\":[{\"id\":1,\"message_id\":10,\"room_id\":7,\"room_name\":\"R\",\"time_stamp\":5,\"user_id\":9,\"user_name\":\"a\",\"content\":\"one\"},{\"id\":2,\"message_id\":11,\"room_id\":7,\"room_name\":\"R\",\"time_stamp\":6,\"user_id\":9,\"user_name\":\"a\",\"content\":\"two\",\"message_edits\":1},{\"bad\":true}]}";
    let v = parse_json(body).unwrap();
    let ms = history_messages(&v).unwrap();
    assert_eq!(ms.len(), 1);
    assert_eq!(ms[0].id, 10);
    let mut room = Room::new("k".to_string(), 9, 7);
    assert!(room.needs_history());
    room.apply_history(answer(200, body)).unwrap();
    assert!(!room.needs_history());
    assert_eq!(room.messages().len(), 1);
    assert_eq!(room.apply_history(answer(200, "{}")), Err(SeError::DecodeError));
    assert_eq!(room.apply_history(answer(409, "")), Err(SeError::RateLimited));
    assert_eq!(room.messages().len(), 1);
}

#[test]
fn sent_message_and_its_echo_are_one_entry() {
    let mut room = Room::new("k".to_string(), 5, 1);
    let id = Room::send_message_result(answer(200, "{\"id\": 200}")).unwrap();
    assert_eq!(id, 200);
    room.apply_event(posted(200, "42", "me")).unwrap();
    room.apply_event(posted(200, "42", "me")).unwrap();
    room.merge_history(vec![msg(200, "42", "me")]);
    assert_eq!(room.messages().len(), 1);
    assert_eq!(room.messages()[0].id, 200);
}

#[test]
fn edits_are_refused_by_the_buffer() {
    let mut room = Room::new("k".to_string(), 5, 1);
    let edit = ChatEventType::Edit {
        event: ChatEvent {
            id: 1, message_id: 2, room_id: 1, room_name: "S".to_string(), timestamp: 3, user_id: 4,
            username: "u".to_string(),
        },
        message_edits: 1,
        content: "c".to_string(),
    };
    assert_eq!(room.apply_event(edit.clone()), Err(SeError::ExpectedPostedEvent(edit)));
    assert!(room.messages().is_empty());
}

#[test]
fn join_before_login_is_refused() {
    let mut u = User::new();
    assert_eq!(u.join_room(1), Err(SeError::NotAuthenticated));
    assert!(u.get_room(1).is_none());
    assert!(u.get_rooms().is_empty());
    assert_eq!(u.current_room_id(), None);
}

#[test]
fn join_twice_finds_the_same_room() {
    let mut u = logged_in();
    assert_eq!(u.join_room(3), Ok(Joined::Created));
    assert_eq!(u.join_room(3), Ok(Joined::Existing));
    assert_eq!(room_ids(&u), vec![3]);
    assert_eq!(u.current_room().unwrap().get_id(), 3);
    assert_eq!(u.join_room(4), Ok(Joined::Created));
    assert_eq!(room_ids(&u), vec![3, 4]);
    assert_eq!(u.current_room_id(), Some(3));
    assert_eq!(u.get_room(4).unwrap().fkey(), "k");
    assert_eq!(u.get_room(4).unwrap().user_id(), 42);
}

#[test]
fn leave_clears_current_room() {
    let mut u = logged_in();
    u.join_room(3).unwrap();
    u.join_room(4).unwrap();
    assert!(u.leave_room(9).is_none());
    let left = u.leave_room(3).unwrap();
    assert_eq!(left.get_id(), 3);
    assert_eq!(u.current_room_id(), None);
    assert!(u.current_room().is_none());
    assert_eq!(room_ids(&u), vec![4]);
}

#[test]
fn stream_event_reaches_the_room_buffer() {
    let mut u = logged_in();
    u.join_room(1).unwrap();
    let text = "{\"r1\":{\"e\":[{\"id\":1,\"message_id\":100,\"room_id\":1,\"room_name\":\"Sandbox\",\"time_stamp\":1684029252,\"user_id\":526756,\"user_name\":\"Seggan\",\"content\":\"hi\"}]}}";
    for e in se_chat::event::read_frame(text, 1).unwrap() {
        assert_eq!(u.apply_event(1, e), Some(Ok(())));
    }
    let ms = u.get_room(1).unwrap().messages();
    assert_eq!(ms.len(), 1);
    assert_eq!(ms[0].id, 100);
    assert_eq!(ms[0].content, "hi");
    assert_eq!(ms[0].username, "Seggan");
    assert_eq!(u.apply_event(2, posted(1, "x", "y")), None);
}

#[test]
fn failed_login_keeps_session_out() {
    let mut u = User::new();
    assert_eq!(u.finish_login(Err(SeError::CaptchaRequired)), Err(SeError::CaptchaRequired));
    assert!(!u.is_authenticated());
    assert_eq!(u.user_id(), None);
}

fn expect_call(next: LoginNext) -> (LoginFlow, HttpCall) {
    match next {
        LoginNext::Call(flow, call) => (flow, call),
        LoginNext::Done(r) => panic!("handshake ended early: {:?}", r.err()),
    }
}

#[test]
fn login_answer_other_than_ok_fails_with_it() {
    let (flow, call) = expect_call(LoginFlow::begin("a@b.com".to_string(), "secret".to_string(), false));
    assert!(matches!(call, HttpCall::Get(ref u) if u == "https://meta.stackexchange.com/users/login"));
    let page = "<html><body><form><input name=\"fkey\" value=\"site123\"></form></body></html>";
    let (flow, call) = expect_call(flow.on_reply(answer(200, page)));
    match call {
        HttpCall::Post(form) => {
            assert_eq!(form.url, "https://meta.stackexchange.com/users/login-or-signup/validation/track");
            let f: Vec<(&str, &str)> = form.fields.iter().map(|(a, b)| (a.as_str(), b.as_str())).collect();
            assert_eq!(f[0], ("email", "a@b.com"));
            assert_eq!(f[1], ("password", "secret"));
            assert_eq!(f[2], ("fkey", "site123"));
            assert_eq!(f.len(), 10);
        }
        HttpCall::Get(_) => panic!("expected a post"),
    }
    match flow.on_reply(answer(200, "Login-Failed: nope")) {
        LoginNext::Done(Err(SeError::LoginFailed(d))) => assert_eq!(d, "Login-Failed: nope"),
        _ => panic!("expected a failed login"),
    }
}

#[test]
fn login_page_without_key_fails() {
    let (flow, _) = expect_call(LoginFlow::begin("a".to_string(), "b".to_string(), false));
    assert!(matches!(
        flow.on_reply(answer(200, "<html><title>x</title></html>")),
        LoginNext::Done(Err(SeError::LoginFailed(_)))
    ));
}

#[test]
fn captcha_on_profile_is_reported() {
    let (flow, _) = expect_call(LoginFlow::begin("a".to_string(), "b".to_string(), false));
    let (flow, _) = expect_call(flow.after_login_page(Some("k".to_string())));
    let (flow, call) = expect_call(flow.on_reply(answer(200, "Login-OK")));
    match call {
        HttpCall::Post(form) => assert_eq!(form.url, "https://meta.stackexchange.com/users/login"),
        HttpCall::Get(_) => panic!("expected a post"),
    }
    let page = "<html><head><title>Human verification - Stack Exchange</title></head></html>";
    assert!(matches!(flow.on_reply(answer(200, page)), LoginNext::Done(Err(SeError::CaptchaRequired))));
}

#[test]
fn chat_page_gives_key_and_user_id() {
    let (flow, call) = expect_call(LoginFlow::begin("a".to_string(), "b".to_string(), true));
    assert!(matches!(call, HttpCall::Get(ref u) if u == "https://chat.stackexchange.com/chats/join/favorite"));
    let page = "<html><body><div class=\"topbar-menu-links\"><a href=\"/users/526756/seggan\">Seggan</a></div><input name=\"fkey\" value=\"chatkey\"></body></html>";
    match flow.on_reply(answer(200, page)) {
        LoginNext::Done(Ok(a)) => {
            assert_eq!(a.fkey, "chatkey");
            assert_eq!(a.user_id, 526756);
        }
        _ => panic!("expected a finished login"),
    }
}

#[test]
fn chat_page_without_user_link_is_bad_credentials() {
    let page = "<html><body><div class=\"topbar-menu-links\"><a href=\"/users/login\">log in</a></div><input name=\"fkey\" value=\"chatkey\"></body></html>";
    let (flow, _) = expect_call(LoginFlow::begin("a".to_string(), "b".to_string(), true));
    assert!(matches!(flow.on_reply(answer(200, page)), LoginNext::Done(Err(SeError::BadCredentials))));
    assert!(matches!(
        LoginFlow::after_chat_page(Some("k".to_string()), None),
        LoginNext::Done(Err(SeError::BadCredentials))
    ));
    let (flow, _) = expect_call(LoginFlow::begin("a".to_string(), "b".to_string(), true));
    assert!(matches!(
        flow.on_reply(HttpOutcome::Transport("down".to_string())),
        LoginNext::Done(Err(SeError::BadCredentials))
    ));
}

#[test]
fn transport_failure_before_chat_page_is_reported() {
    let (flow, _) = expect_call(LoginFlow::begin("a".to_string(), "b".to_string(), false));
    assert!(matches!(
        flow.on_reply(HttpOutcome::Transport("down".to_string())),
        LoginNext::Done(Err(SeError::TransportError(ref d))) if d == "down"
    ));
}

#[test]
fn login_stage_names_the_awaited_answer() {
    let stage = LoginStage::LoginAnswer { site_key: "k".to_string() };
    assert!(matches!(stage, LoginStage::LoginAnswer { .. }));
}

#[test]
fn caller_fkey_is_replaced_by_session_key() {
    let room = Room::new("session".to_string(), 1, 5);
    let r = room.request(
        "https://chat.stackexchange.com/chats/5/events".to_string(),
        vec![
            ("fkey".to_string(), "stale".to_string()),
            ("mode".to_string(), "Messages".to_string()),
            ("fkey".to_string(), "older".to_string()),
        ],
    );
    let f: Vec<(&str, &str)> = r.fields.iter().map(|(a, b)| (a.as_str(), b.as_str())).collect();
    assert_eq!(f, vec![("mode", "Messages"), ("fkey", "session")]);
    assert_eq!(r.referer.as_deref(), Some("https://chat.stackexchange.com/rooms/5"));
}
