use paint_game::registry::UserRegistry;
use paint_game::session::{Incoming, Phase, Reaction, Session};
use paint_game::stream::{entry_fields, DumpError, RedisValue, StreamEntry, StreamKey, StreamReply};

fn reply_of(texts: &[&str]) -> StreamReply {
    StreamReply {
        keys: vec![StreamKey {
            key: "paint-game".to_string(),
            ids: texts
                .iter()
                .map(|t| StreamEntry {
                    id: "0-1".to_string(),
                    fields: vec![("data".to_string(), RedisValue::Data(t.as_bytes().to_vec()))],
                })
                .collect(),
        }],
    }
}

fn live_session(users: &mut UserRegistry<&'static str>, tx: &'static str) -> Session {
    let mut s = Session::connect_user(users, tx);
    let r = s.initial_dump(&reply_of(&[]), users);
    assert!(r.texts.is_empty());
    assert_eq!(s.phase, Phase::Live);
    s
}

#[test]
fn connect_registers_a_random_uuid() {
    let mut users = UserRegistry::new();
    let s = Session::connect_user(&mut users, "tx");
    assert_eq!(s.phase, Phase::Replaying);
    assert_eq!(users.get(s.user_id), Some(&"tx"));
    assert_eq!(users.len(), 1);
    let text = entry_fields(s.user_id, String::new())[0].1.clone();
    assert_eq!(text.len(), 36);
    assert_eq!(&text[14..15], "4");
    assert!(matches!(&text[19..20], "8" | "9" | "a" | "b"));
    let parsed = uuid::Uuid::parse_str(&text).unwrap();
    assert_eq!(parsed.get_version_num(), 4);
}

#[test]
fn connect_twice_gives_two_users() {
    let mut users = UserRegistry::new();
    let a = Session::connect_user(&mut users, "a");
    let b = Session::connect_user(&mut users, "b");
    assert_ne!(a.user_id, b.user_id);
    assert_eq!(users.len(), 2);
}

#[test]
fn initial_dump_sends_all_stored_strokes_to_a_registered_user() {
    let mut users = UserRegistry::new();
    let mut s = Session::connect_user(&mut users, "me");
    let r = s.initial_dump(&reply_of(&["a", "b", "c"]), &users);
    assert_eq!(r.texts, vec!["a", "b", "c"]);
    assert_eq!(r.failure, None);
    assert_eq!(s.phase, Phase::Live);
}

#[test]
fn initial_dump_sends_nothing_to_an_unregistered_user() {
    let mut users = UserRegistry::new();
    let mut s = Session::connect_user(&mut users, "me");
    s.handle_disconnecting(&mut users);
    s.phase = Phase::Replaying;
    let r = s.initial_dump(&reply_of(&["a", "b"]), &users);
    assert!(r.texts.is_empty());
    assert_eq!(r.failure, None);
}

#[test]
fn initial_dump_reports_a_bad_entry_and_ends_the_session() {
    let mut users = UserRegistry::new();
    let mut s = Session::connect_user(&mut users, "me");
    let mut reply = reply_of(&["ok"]);
    reply.keys[0].ids.push(StreamEntry { id: "0-2".to_string(), fields: vec![] });
    let r = s.initial_dump(&reply, &users);
    assert_eq!(r.texts, vec!["ok"]);
    assert_eq!(r.failure, Some(DumpError::MissingData));
    assert_eq!(s.phase, Phase::Done);
}

#[test]
fn initial_dump_happens_once() {
    let mut users = UserRegistry::new();
    let mut s = Session::connect_user(&mut users, "me");
    let _ = s.initial_dump(&reply_of(&["a"]), &users);
    let again = s.initial_dump(&reply_of(&["a"]), &users);
    assert!(again.texts.is_empty());
    assert_eq!(again.failure, None);
    assert_eq!(s.phase, Phase::Live);
}

#[test]
fn text_is_relayed_to_everyone_else() {
    let mut users = UserRegistry::new();
    let mut me = live_session(&mut users, "me");
    let other1 = Session::connect_user(&mut users, "o1");
    let other2 = Session::connect_user(&mut users, "o2");
    match me.handle_incoming_data(Incoming::Text("line".to_string()), &users) {
        Reaction::Relay { mut recipients, text } => {
            assert_eq!(text, "line");
            recipients.sort();
            let mut expected = vec![other1.user_id, other2.user_id];
            expected.sort();
            assert_eq!(recipients, expected);
        }
        Reaction::Leave => panic!("a text message must be relayed"),
    }
    assert_eq!(me.phase, Phase::Live);
}

#[test]
fn lone_user_relays_to_nobody() {
    let mut users = UserRegistry::new();
    let mut me = live_session(&mut users, "me");
    match me.handle_incoming_data(Incoming::Text(String::new()), &users) {
        Reaction::Relay { recipients, text } => {
            assert!(recipients.is_empty());
            assert_eq!(text, "");
        }
        Reaction::Leave => panic!("a text message must be relayed"),
    }
}

#[test]
fn non_text_error_and_end_make_the_user_leave() {
    for event in [Incoming::NotText, Incoming::Failed, Incoming::Ended] {
        let mut users = UserRegistry::new();
        let mut me = live_session(&mut users, "me");
        assert!(matches!(me.handle_incoming_data(event, &users), Reaction::Leave));
        assert_eq!(me.phase, Phase::Done);
        assert!(matches!(
            me.handle_incoming_data(Incoming::Text("late".to_string()), &users),
            Reaction::Leave
        ));
    }
}

#[test]
fn text_before_the_replay_ends_the_session() {
    let mut users = UserRegistry::new();
    let mut me = Session::connect_user(&mut users, "me");
    assert!(matches!(me.handle_incoming_data(Incoming::Text("x".to_string()), &users), Reaction::Leave));
    assert_eq!(me.phase, Phase::Done);
}

#[test]
fn disconnect_undoes_connect() {
    let mut users = UserRegistry::new();
    users.insert(1, "stays");
    let mut me = Session::connect_user(&mut users, "me");
    me.handle_disconnecting(&mut users);
    assert_eq!(users.len(), 1);
    assert_eq!(users.get(1), Some(&"stays"));
    assert!(!users.contains(me.user_id));
    assert_eq!(me.phase, Phase::Done);
}
