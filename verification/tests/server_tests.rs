//! The dispatcher: routing, the size cap, the dev-mode lock, and the
//! end-to-end request/response shapes.

use lai::json::{JsonObject, JsonScalar};
use lai::server::{dev_mode_enabled, dispatch, handle_line, UiEvent, MAX_MESSAGE_SIZE};
use lai::store::ConversationStore;
use lai::wire::{write_response, Envelope};

fn env(kind: &str, message: Option<&str>, payload: Option<JsonObject>) -> Envelope {
    Envelope {
        kind: kind.to_string(),
        message: message.map(|s| s.to_string()),
        payload,
    }
}

fn payload(fields: Vec<(&str, JsonScalar)>) -> JsonObject {
    JsonObject {
        fields: fields.into_iter().map(|(k, v)| (k.to_string(), v)).collect(),
    }
}

#[test]
fn notify_is_acknowledged_and_forwarded() {
    let mut store = ConversationStore::new();
    let line = "{\"type\":\"notify\",\"message\":\"Build completed\"}\n".to_string();
    let (resp, event) = handle_line(&mut store, false, &line, 1000)
        .expect("an answer is owed");
    assert_eq!(write_response(&resp), "{\"status\":\"ok\"}\n");
    match event {
        Some(UiEvent::Notify(m)) => assert_eq!(m, "Build completed"),
        _ => panic!("the notification must reach the UI"),
    }
}

#[test]
fn last_without_conversations_is_the_exact_error() {
    let mut store = ConversationStore::new();
    let line = "{\"type\":\"last\"}\n".to_string();
    let (resp, event) = handle_line(&mut store, false, &line, 1000).expect("answered");
    assert_eq!(
        write_response(&resp),
        "{\"status\":\"error\",\"data\":{\"error\":\"No messages found\"}}\n"
    );
    assert!(event.is_none());
}

#[test]
fn oversized_line_is_refused_and_connection_stays_usable() {
    let mut store = ConversationStore::new();
    let mut big = String::with_capacity(MAX_MESSAGE_SIZE + 16);
    big.push_str("{\"type\":\"notify\",\"message\":\"");
    for _ in 0..MAX_MESSAGE_SIZE {
        big.push('a');
    }
    big.push_str("\"}\n");
    let (resp, event) = handle_line(&mut store, false, &big, 0).expect("answered");
    assert_eq!(
        write_response(&resp),
        "{\"status\":\"error\",\"data\":{\"error\":\"Message too large\"}}\n"
    );
    assert!(event.is_none());

    let next = "{\"type\":\"notify\",\"message\":\"still here\"}\n".to_string();
    let (resp2, _) = handle_line(&mut store, false, &next, 0).expect("answered");
    assert_eq!(write_response(&resp2), "{\"status\":\"ok\"}\n");
}

#[test]
fn blank_line_gets_no_answer() {
    let mut store = ConversationStore::new();
    assert!(handle_line(&mut store, false, &"\r\n".to_string(), 0).is_none());
    assert!(handle_line(&mut store, false, &"   \n".to_string(), 0).is_none());
}

#[test]
fn invalid_json_is_answered_not_fatal() {
    let mut store = ConversationStore::new();
    let (resp, event) = handle_line(&mut store, false, &"{oops\n".to_string(), 0).expect("answered");
    assert_eq!(
        write_response(&resp),
        "{\"status\":\"error\",\"data\":{\"error\":\"Invalid JSON\"}}\n"
    );
    assert!(event.is_none());
}

#[test]
fn unknown_kind_is_inert() {
    let mut store = ConversationStore::new();
    let e = env("frobnicate", Some("whatever"), None);
    let before_convs = store.conversations.len();
    let before_msgs = store.messages.len();
    let (resp, event) = dispatch(&mut store, true, &e, 0);
    assert_eq!(write_response(&resp), "{\"status\":\"ok\"}\n");
    assert!(event.is_none());
    assert_eq!(store.conversations.len(), before_convs);
    assert_eq!(store.messages.len(), before_msgs);
}

#[test]
fn create_is_refused_without_the_flag() {
    let mut store = ConversationStore::new();
    let e = env(
        "create",
        None,
        Some(payload(vec![("content", JsonScalar::Str("hi".to_string()))])),
    );
    let (resp, event) = dispatch(&mut store, false, &e, 0);
    assert_eq!(
        write_response(&resp),
        "{\"status\":\"error\",\"data\":{\"error\":\"create command only available in DEV_MODE\"}}\n"
    );
    assert!(event.is_none());
    assert_eq!(store.messages.len(), 0);
    assert_eq!(store.conversations.len(), 0);
}

#[test]
fn create_with_flag_persists_exactly_one_message() {
    let mut store = ConversationStore::new();
    let e = env(
        "create",
        None,
        Some(payload(vec![("content", JsonScalar::Str("Test assistant message".to_string()))])),
    );
    let (resp, _) = dispatch(&mut store, true, &e, 1234);
    assert_eq!(resp.status, "ok");
    assert_eq!(store.messages.len(), 1);
    assert_eq!(store.conversations.len(), 1);
    assert_eq!(store.messages[0].content, "Test assistant message");
    assert_eq!(store.messages[0].role, "assistant");
    assert_eq!(store.conversations[0].title, "Dev Test Conversation");
    assert_eq!(store.conversations[0].model, "dev-model");
    assert_eq!(store.conversations[0].provider, "dev-provider");

    // the created message is now the latest assistant message
    let m = store.last_assistant_message().expect("found");
    assert_eq!(m.content, "Test assistant message");
}

#[test]
fn create_without_payload_is_refused() {
    let mut store = ConversationStore::new();
    let e = env("create", None, None);
    let (resp, _) = dispatch(&mut store, true, &e, 0);
    assert_eq!(
        write_response(&resp),
        "{\"status\":\"error\",\"data\":{\"error\":\"No payload provided for create command\"}}\n"
    );
    assert_eq!(store.messages.len(), 0);
}

#[test]
fn create_into_named_conversation() {
    let mut store = ConversationStore::new();
    let first = env(
        "create",
        None,
        Some(payload(vec![("content", JsonScalar::Str("one".to_string()))])),
    );
    dispatch(&mut store, true, &first, 10);
    let cid = store.conversations[0].id.clone();
    let second = env(
        "create",
        None,
        Some(payload(vec![
            ("content", JsonScalar::Str("two".to_string())),
            ("conversation_id", JsonScalar::Str(cid.clone())),
        ])),
    );
    dispatch(&mut store, true, &second, 20);
    assert_eq!(store.conversations.len(), 1);
    assert_eq!(store.messages.len(), 2);
    assert_eq!(store.messages[1].conversation_id, cid);
    let m = store.last_assistant_message().expect("found");
    assert_eq!(m.content, "two");
}

#[test]
fn create_defaults_content_when_absent() {
    let mut store = ConversationStore::new();
    let e = env("create", None, Some(payload(vec![])));
    let (resp, _) = dispatch(&mut store, true, &e, 0);
    assert_eq!(resp.status, "ok");
    assert_eq!(store.messages[0].content, "Test message");
}

#[test]
fn ask_forwards_payload_or_message() {
    let mut store = ConversationStore::new();
    let e = env(
        "ask",
        Some("ignored"),
        Some(payload(vec![("prompt", JsonScalar::Str("q".to_string()))])),
    );
    let (resp, event) = dispatch(&mut store, false, &e, 0);
    assert_eq!(resp.status, "ok");
    match event {
        Some(UiEvent::AskPayload(p)) => {
            assert_eq!(p.get_str(&"prompt".to_string()), Some("q".to_string()))
        }
        _ => panic!("payload preferred"),
    }

    let e2 = env("ask", Some("plain question"), None);
    let (_, event2) = dispatch(&mut store, false, &e2, 0);
    match event2 {
        Some(UiEvent::AskMessage(m)) => assert_eq!(m, "plain question"),
        _ => panic!("message forwarded"),
    }
}

#[test]
fn dev_mode_flag_values() {
    assert!(dev_mode_enabled(Some("1".to_string())));
    assert!(dev_mode_enabled(Some("true".to_string())));
    assert!(dev_mode_enabled(Some("YES".to_string())));
    assert!(dev_mode_enabled(Some("  TrUe \n".to_string())));
    assert!(!dev_mode_enabled(Some("0".to_string())));
    assert!(!dev_mode_enabled(Some("no".to_string())));
    assert!(!dev_mode_enabled(Some("".to_string())));
    assert!(!dev_mode_enabled(Some("  ".to_string())));
    assert!(!dev_mode_enabled(None));
}
