use paint_game::stream::{
    entry_fields, replay_stream, DumpError, RedisValue, StreamEntry, StreamKey, StreamReply,
    NEW_ENTRY_ID, READ_FROM_START, STREAM_NAME,
};

fn entry(id: &str, fields: Vec<(&str, RedisValue)>) -> StreamEntry {
    StreamEntry {
        id: id.to_string(),
        fields: fields.into_iter().map(|(k, v)| (k.to_string(), v)).collect(),
    }
}

fn data(text: &str) -> RedisValue {
    RedisValue::Data(text.as_bytes().to_vec())
}

fn one_key(entries: Vec<StreamEntry>) -> StreamReply {
    StreamReply { keys: vec![StreamKey { key: STREAM_NAME.to_string(), ids: entries }] }
}

#[test]
fn stream_commands_use_the_board_stream() {
    assert_eq!(STREAM_NAME, "paint-game");
    assert_eq!(NEW_ENTRY_ID, "*");
    assert_eq!(READ_FROM_START, "0");
}

#[test]
fn entry_fields_hold_the_user_id_text_and_the_stroke() {
    let fields = entry_fields(0x00112233445566778899aabbccddeeff, "stroke".to_string());
    assert_eq!(
        fields,
        vec![
            ("user_id".to_string(), "ffeeddcc-bbaa-9988-7766-554433221100".to_string()),
            ("data".to_string(), "stroke".to_string()),
        ]
    );
}

#[test]
fn entry_fields_match_the_uuid_text() {
    let id = uuid::Uuid::parse_str("67e55044-10b1-426f-9247-bb680e5fe0c8").unwrap();
    let fields = entry_fields(id.to_u128_le(), String::new());
    assert_eq!(fields[0].1, "67e55044-10b1-426f-9247-bb680e5fe0c8");
    assert_eq!(fields[1].1, "");
}

#[test]
fn entry_fields_of_zero_id() {
    let fields = entry_fields(0, "x".to_string());
    assert_eq!(fields[0].1, "00000000-0000-0000-0000-000000000000");
}

#[test]
fn replay_reads_every_entry_in_order() {
    let reply = one_key(vec![
        entry("1-0", vec![("user_id", data("u")), ("data", data("first"))]),
        entry("2-0", vec![("data", data("second")), ("user_id", data("u"))]),
    ]);
    let (texts, failure) = replay_stream(&reply);
    assert_eq!(texts, vec!["first".to_string(), "second".to_string()]);
    assert_eq!(failure, None);
}

#[test]
fn replay_walks_keys_in_order() {
    let reply = StreamReply {
        keys: vec![
            StreamKey { key: "a".to_string(), ids: vec![entry("1-0", vec![("data", data("a1"))])] },
            StreamKey { key: "b".to_string(), ids: vec![] },
            StreamKey {
                key: "c".to_string(),
                ids: vec![entry("1-0", vec![("data", data("c1"))]), entry("2-0", vec![("data", data("c2"))])],
            },
        ],
    };
    let (texts, failure) = replay_stream(&reply);
    assert_eq!(texts, vec!["a1", "c1", "c2"]);
    assert_eq!(failure, None);
}

#[test]
fn replay_of_empty_stream() {
    let (texts, failure) = replay_stream(&StreamReply { keys: vec![] });
    assert!(texts.is_empty());
    assert_eq!(failure, None);
    let (texts, failure) = replay_stream(&one_key(vec![]));
    assert!(texts.is_empty());
    assert_eq!(failure, None);
}

#[test]
fn replay_reads_status_and_ok_as_text() {
    let reply = one_key(vec![
        entry("1-0", vec![("data", RedisValue::Status("drawn".to_string()))]),
        entry("2-0", vec![("data", RedisValue::Okay)]),
    ]);
    let (texts, failure) = replay_stream(&reply);
    assert_eq!(texts, vec!["drawn", "OK"]);
    assert_eq!(failure, None);
}

#[test]
fn replay_stops_at_entry_without_data() {
    let reply = one_key(vec![
        entry("1-0", vec![("data", data("kept"))]),
        entry("2-0", vec![("user_id", data("u"))]),
        entry("3-0", vec![("data", data("never"))]),
    ]);
    let (texts, failure) = replay_stream(&reply);
    assert_eq!(texts, vec!["kept"]);
    assert_eq!(failure, Some(DumpError::MissingData));
}

#[test]
fn replay_stops_at_data_that_is_not_utf8() {
    let reply = one_key(vec![
        entry("1-0", vec![("data", RedisValue::Data(vec![0xff, 0xfe]))]),
        entry("2-0", vec![("data", data("never"))]),
    ]);
    let (texts, failure) = replay_stream(&reply);
    assert!(texts.is_empty());
    assert_eq!(failure, Some(DumpError::NotText));
}

#[test]
fn replay_refuses_numbers_nil_and_bulk() {
    for v in [RedisValue::Int(5), RedisValue::Nil, RedisValue::Bulk(vec![data("x")])] {
        let (texts, failure) = replay_stream(&one_key(vec![entry("1-0", vec![("data", v)])]));
        assert!(texts.is_empty());
        assert_eq!(failure, Some(DumpError::NotText));
    }
}

#[test]
fn replay_takes_the_first_data_field() {
    let reply = one_key(vec![entry("1-0", vec![("data", data("one")), ("data", data("two"))])]);
    let (texts, _) = replay_stream(&reply);
    assert_eq!(texts, vec!["one"]);
}

#[test]
fn stored_utf8_strokes_come_back_unchanged() {
    let strokes = ["{\"attrs\":{\"stroke\":\"/#df4b26\"}}", "déjà vu ✓", ""];
    let reply = one_key(strokes.iter().map(|s| entry("1-0", vec![("data", data(s))])).collect());
    let (texts, failure) = replay_stream(&reply);
    assert_eq!(texts, strokes.to_vec());
    assert_eq!(failure, None);
}

#[test]
fn distinct_ids_are_stored_under_distinct_texts() {
    let ids = [0u128, 1, 1 << 8, 1 << 127, u128::MAX, 0x0123_4567_89ab_cdef_0123_4567_89ab_cdef];
    let texts: Vec<String> = ids.iter().map(|id| entry_fields(*id, String::new())[0].1.clone()).collect();
    for i in 0..texts.len() {
        for j in 0..texts.len() {
            assert_eq!(texts[i] == texts[j], i == j);
        }
    }
    assert_eq!(texts[1], "01000000-0000-0000-0000-000000000000");
    assert_eq!(texts[4], "ffffffff-ffff-ffff-ffff-ffffffffffff");
}

#[test]
fn id_text_has_hyphens_at_fixed_places() {
    let text = entry_fields(0xdead_beef_0000_1111_2222_3333_4444_5555, String::new())[0].1.clone();
    assert_eq!(text.len(), 36);
    for (k, c) in text.chars().enumerate() {
        if [8, 13, 18, 23].contains(&k) {
            assert_eq!(c, '-');
        } else {
            assert!(c.is_ascii_hexdigit() && !c.is_ascii_uppercase());
        }
    }
}
