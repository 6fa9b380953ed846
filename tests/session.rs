use chat::client::{Client, Step};
use chat::task::{Task, TaskType};

#[test]
fn client_name_is_trimmed() {
    let c = Client::new("  alice \n".to_string());
    assert_eq!(c.name().as_str(), "alice");
    assert_eq!(c.registration(), "alice");
}

#[test]
fn self_addressed_recipient_sends_nothing() {
    let c = Client::new("alice".to_string());
    assert!(matches!(c.next_step(" alice\n"), Step::SelfAddressed));
}

#[test]
fn exit_and_list_steps() {
    let c = Client::new("alice".to_string());
    assert!(matches!(c.next_step("/exit\n"), Step::Exit));
    match c.next_step("/list\n") {
        Step::Send(m) => {
            assert_eq!(m.from(), "alice");
            assert_eq!(m.to(), "/list");
            assert_eq!(m.content(), "");
        }
        _ => panic!("expected a directory query"),
    }
}

#[test]
fn other_recipient_asks_for_content() {
    let c = Client::new("alice".to_string());
    match c.next_step("  bob \n") {
        Step::AskContent(to) => assert_eq!(to, "bob"),
        _ => panic!("expected a content prompt"),
    }
    let m = c.compose(" bob ", " hello there \n");
    assert_eq!(m.from(), "alice");
    assert_eq!(m.to(), "bob");
    assert_eq!(m.content(), "hello there");
}

#[test]
fn task_from_string_any_case() {
    assert_eq!(Task::from_string("server"), Some(TaskType::Server));
    assert_eq!(Task::from_string("SeRvEr"), Some(TaskType::Server));
    assert_eq!(Task::from_string("CLIENT"), Some(TaskType::Client));
    assert_eq!(Task::from_string("peer"), None);
    assert_eq!(Task::from_lowered("Server"), None);
}
