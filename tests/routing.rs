use chat::envelope::Message;
use chat::identity::ArcString;
use chat::registry::Registry;
use chat::router::{route, route_at};
use chat::server::{registration_identity, Inbound, Server};

fn id(s: &str) -> ArcString {
    ArcString::new(s.to_string())
}

fn msg(from: &str, to: &str, content: &str) -> Message {
    Message::with_time_stamp(id(from), to.to_string(), "10:00:00".to_string(), content.to_string())
}

fn two_users() -> Registry<u32> {
    let mut r = Registry::new();
    r.insert(id("A"), 1);
    r.insert(id("B"), 2);
    r
}

#[test]
fn registry_insert_lookup_remove() {
    let mut r: Registry<u32> = Registry::new();
    assert_eq!(r.len(), 0);
    r.insert(id("alice"), 7);
    assert_eq!(r.lookup("alice"), Some(&7));
    assert_eq!(r.lookup("bob"), None);
    r.remove("alice");
    assert_eq!(r.lookup("alice"), None);
    r.remove("alice");
    assert_eq!(r.len(), 0);
}

#[test]
fn registry_same_identity_twice_keeps_last() {
    let mut r: Registry<u32> = Registry::new();
    r.insert(id("alice"), 1);
    r.insert(id("bob"), 5);
    r.insert(id("alice"), 2);
    assert_eq!(r.len(), 2);
    assert_eq!(r.lookup("alice"), Some(&2));
    let ids: Vec<String> = r.snapshot_identities().iter().map(|a| a.get()).collect();
    assert_eq!(ids, vec!["alice".to_string(), "bob".to_string()]);
}

#[test]
fn registry_clear_empties() {
    let mut r = two_users();
    r.clear();
    assert_eq!(r.len(), 0);
    assert_eq!(r.lookup("A"), None);
}

#[test]
fn route_to_online_recipient_forwards_unchanged() {
    let r = two_users();
    let d = route_at(&r, &id("A"), msg("A", "B", "hi"), "11:11:11".to_string()).unwrap();
    assert_eq!(d.target.as_str(), "B");
    assert_eq!(d.envelope.from(), "A");
    assert_eq!(d.envelope.to(), "B");
    assert_eq!(d.envelope.content(), "hi");
    assert_eq!(d.envelope.time_stamp(), "10:00:00");
}

#[test]
fn route_to_offline_recipient_notifies_sender() {
    let r = two_users();
    let d = route_at(&r, &id("A"), msg("A", "C", "hi"), "11:11:11".to_string()).unwrap();
    assert_eq!(d.target.as_str(), "A");
    assert_eq!(d.envelope.from(), "Server");
    assert_eq!(d.envelope.to(), "A");
    assert_eq!(d.envelope.content(), "用户 C 不在线");
    assert_eq!(d.envelope.time_stamp(), "11:11:11");
}

#[test]
fn route_from_offline_sender_to_offline_recipient_drops() {
    let r = two_users();
    assert!(route_at(&r, &id("Z"), msg("Z", "C", "hi"), "t".to_string()).is_none());
    assert!(route_at(&r, &id("Z"), msg("Z", "/list", ""), "t".to_string()).is_none());
}

#[test]
fn route_to_self_is_delivered() {
    let r = two_users();
    let d = route_at(&r, &id("A"), msg("A", "A", "me"), "t".to_string()).unwrap();
    assert_eq!(d.target.as_str(), "A");
    assert_eq!(d.envelope.from(), "A");
}

#[test]
fn directory_query_lists_everyone_to_sender() {
    let r = two_users();
    let d = route_at(&r, &id("A"), msg("A", "/list", ""), "12:00:00".to_string()).unwrap();
    assert_eq!(d.target.as_str(), "A");
    assert_eq!(d.envelope.from(), "Server");
    assert_eq!(d.envelope.to(), "A");
    assert_eq!(d.envelope.content(), "当前在线用户 (共2人):\n  › A\n  › B");
}

#[test]
fn directory_query_counts_in_decimal() {
    let mut r: Registry<u32> = Registry::new();
    for i in 0..12u32 {
        r.insert(id(&format!("u{}", i)), i);
    }
    let d = route(&r, &id("u0"), msg("u0", "/list", "")).unwrap();
    assert!(d.envelope.content().starts_with("当前在线用户 (共12人):\n  › u0\n  › u1\n"));
    assert!(d.envelope.content().ends_with("\n  › u11"));
}

#[test]
fn registration_identity_trims() {
    assert!(registration_identity(b"").is_none());
    assert_eq!(registration_identity(b"  alice \r\n").unwrap().as_str(), "alice");
    assert_eq!(registration_identity(b"   ").unwrap().as_str(), "");
}

#[test]
fn server_register_and_disconnect() {
    let mut s: Server<u32> = Server::new();
    s.register(id("A"), 1);
    assert_eq!(s.lookup("A"), Some(&1));
    s.register(id("A"), 3);
    assert_eq!(s.lookup("A"), Some(&3));
    assert_eq!(s.registry().len(), 1);
    s.disconnect(&id("A"));
    assert_eq!(s.lookup("A"), None);
}

#[test]
fn server_handles_chunks() {
    let mut s: Server<u32> = Server::new();
    s.register(id("A"), 1);
    s.register(id("B"), 2);
    assert!(matches!(s.handle_chunk(&id("A"), b""), Inbound::Closed));
    assert!(matches!(s.handle_chunk(&id("A"), b"{oops"), Inbound::Malformed));
    let wire = msg("A", "B", "hi").encode();
    match s.handle_chunk_at(&id("A"), wire.as_bytes(), "t".to_string()) {
        Inbound::Routed(Some(d)) => {
            assert_eq!(d.target.as_str(), "B");
            assert_eq!(d.envelope.content(), "hi");
        }
        _ => panic!("expected a delivery"),
    }
}

#[test]
fn shutdown_notifies_everyone_then_empties() {
    let mut s: Server<u32> = Server::new();
    s.register(id("A"), 1);
    s.register(id("B"), 2);
    let out = s.shutdown_at("23:59:59".to_string());
    assert_eq!(out.len(), 2);
    assert_eq!(out[0].target.as_str(), "A");
    assert_eq!(out[1].target.as_str(), "B");
    for d in out.iter() {
        assert_eq!(d.envelope.from(), "Server");
        assert_eq!(d.envelope.to(), d.target.as_str());
        assert_eq!(d.envelope.content(), "服务器即将关闭，所有用户已断开连接");
        assert_eq!(d.envelope.time_stamp(), "23:59:59");
    }
    assert_eq!(s.registry().len(), 0);
    assert_eq!(s.shutdown().len(), 0);
}

#[test]
fn default_server_is_empty() {
    let s: Server<u32> = Server::default();
    assert_eq!(s.registry().len(), 0);
    assert_eq!(s.lookup("A"), None);
}
