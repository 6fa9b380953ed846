use chat::envelope::{read_chunk, Chunk, Message};
use chat::identity::ArcString;

fn msg(from: &str, to: &str, ts: &str, content: &str) -> Message {
    Message::with_time_stamp(
        ArcString::new(from.to_string()),
        to.to_string(),
        ts.to_string(),
        content.to_string(),
    )
}

#[test]
fn encode_plain_envelope() {
    let m = msg("alice", "bob", "12:34:56", "hi");
    assert_eq!(
        m.encode(),
        "{\"from\":\"alice\",\"to\":\"bob\",\"time_stamp\":\"12:34:56\",\"content\":\"hi\"}"
    );
}

#[test]
fn encode_escapes_special_characters() {
    let m = msg("a\"b", "c\\d", "\n\r\t", "\u{8}\u{c}\u{1}\u{1f}é");
    assert_eq!(
        m.encode(),
        "{\"from\":\"a\\\"b\",\"to\":\"c\\\\d\",\"time_stamp\":\"\\n\\r\\t\",\"content\":\"\\b\\f\\u0001\\u001fé\"}"
    );
}

#[test]
fn encoding_matches_json_string_quoting() {
    let fields = ["plain", "quote\"", "back\\slash", "ctl\u{2}\u{7f}", "中文 ›", ""];
    for f in fields.iter() {
        let m = msg(f, f, f, f);
        let q = serde_json::to_string(f).unwrap();
        let expected = format!(
            "{{\"from\":{},\"to\":{},\"time_stamp\":{},\"content\":{}}}",
            q, q, q, q
        );
        assert_eq!(m.encode(), expected);
    }
}

#[test]
fn encoding_is_valid_json_object() {
    let m = msg("al\"ice", "b\nob", "01:02:03", "x\\y");
    let v: serde_json::Value = serde_json::from_str(&m.encode()).unwrap();
    assert_eq!(v["from"].as_str(), Some("al\"ice"));
    assert_eq!(v["to"].as_str(), Some("b\nob"));
    assert_eq!(v["time_stamp"].as_str(), Some("01:02:03"));
    assert_eq!(v["content"].as_str(), Some("x\\y"));
}

#[test]
fn round_trip_keeps_every_field() {
    let cases = [
        msg("alice", "bob", "12:00:00", "hello"),
        msg("alice", "/list", "12:00:00", ""),
        msg("", "", "", ""),
        msg("q\"uo\\te", "\u{0}\u{1f}", "\t", "{\"from\":\"x\"}"),
    ];
    for m in cases.iter() {
        let back = Message::decode(&m.encode()).unwrap();
        assert_eq!(back.from(), m.from());
        assert_eq!(back.to(), m.to());
        assert_eq!(back.time_stamp(), m.time_stamp());
        assert_eq!(back.content(), m.content());
    }
}

#[test]
fn decode_rejects_invalid_text() {
    assert!(Message::decode("").is_none());
    assert!(Message::decode("not json").is_none());
    assert!(Message::decode("{\"from\":\"a\",\"to\":\"b\"}").is_none());
    assert!(Message::decode(
        "{\"from\":\"a\",\"to\":\"b\",\"time_stamp\":\"t\",\"content\":\"c\"} "
    )
    .is_none());
    assert!(Message::decode(
        "{\"from\":\"a\",\"to\":\"b\",\"time_stamp\":\"t\",\"content\":\"c\\q\"}"
    )
    .is_none());
}

#[test]
fn decode_accepts_canonical_text() {
    let m = Message::decode(
        "{\"from\":\"a\",\"to\":\"b\\u0001\",\"time_stamp\":\"t\",\"content\":\"c\\n\"}",
    )
    .unwrap();
    assert_eq!(m.from(), "a");
    assert_eq!(m.to(), "b\u{1}");
    assert_eq!(m.time_stamp(), "t");
    assert_eq!(m.content(), "c\n");
}

#[test]
fn new_message_keeps_fields() {
    let m = Message::new(ArcString::new("a".to_string()), "b".to_string(), "c".to_string());
    assert_eq!(m.from(), "a");
    assert_eq!(m.to(), "b");
    assert_eq!(m.content(), "c");
    assert_eq!(m.time_stamp().len(), 8);
}

#[test]
fn read_chunk_cases() {
    assert!(matches!(read_chunk(b""), Chunk::Closed));
    assert!(matches!(read_chunk(b"garbage"), Chunk::Malformed));
    let m = msg("a", "b", "t", "c");
    match read_chunk(m.encode().as_bytes()) {
        Chunk::Envelope(e) => {
            assert_eq!(e.from(), "a");
            assert_eq!(e.content(), "c");
        }
        _ => panic!("expected an envelope"),
    }
}

#[test]
fn identity_text() {
    let a = ArcString::new("alice".to_string());
    assert_eq!(a.get(), "alice");
    assert_eq!(a.as_str(), "alice");
    assert!(a.same(&a.share()));
    assert!(!a.same(&ArcString::new("bob".to_string())));
    assert_eq!(a, ArcString::new("alice".to_string()));
}
