//! The conversation-store model: creation, touching, and the `last`
//! query's ordering.

use lai::client::format_capture_result;
use lai::runner::{build_execution_result, RunOutcome};
use lai::store::{ConversationStore, NewConversation, NewMessage};

fn new_conv(title: &str) -> NewConversation {
    NewConversation {
        title: title.to_string(),
        model: "m".to_string(),
        provider: "p".to_string(),
        system_prompt: None,
    }
}

fn new_msg(cid: &str, role: &str, content: &str) -> NewMessage {
    NewMessage {
        conversation_id: cid.to_string(),
        role: role.to_string(),
        content: content.to_string(),
        tokens_used: None,
    }
}

#[test]
fn created_records_carry_their_fields() {
    let mut store = ConversationStore::new();
    let c = store.create_conversation(&new_conv("First"), 100);
    assert_eq!(c.title, "First");
    assert_eq!(c.created_at, 100);
    assert_eq!(c.updated_at, 100);
    assert_eq!(c.id, "conv-0");

    let m = store.create_message(&new_msg(&c.id, "user", "hi"), 150);
    assert_eq!(m.id, "msg-1");
    assert_eq!(m.conversation_id, c.id);
    assert_eq!(m.timestamp, 150);
    // inserting touched the conversation
    assert_eq!(store.conversations[0].updated_at, 150);
}

#[test]
fn last_picks_latest_conversation_then_latest_assistant_message() {
    let mut store = ConversationStore::new();
    let a = store.create_conversation(&new_conv("A"), 10);
    let b = store.create_conversation(&new_conv("B"), 20);
    store.create_message(&new_msg(&a.id, "assistant", "old answer"), 30);
    store.create_message(&new_msg(&b.id, "assistant", "newer answer"), 40);
    store.create_message(&new_msg(&b.id, "user", "question"), 50);

    // conversation B was updated last; its latest assistant message wins
    let m = store.last_assistant_message().expect("found");
    assert_eq!(m.content, "newer answer");
}

#[test]
fn last_ignores_other_conversations_even_with_newer_messages() {
    let mut store = ConversationStore::new();
    let a = store.create_conversation(&new_conv("A"), 10);
    let b = store.create_conversation(&new_conv("B"), 20);
    store.create_message(&new_msg(&b.id, "assistant", "b answer"), 30);
    store.create_message(&new_msg(&a.id, "assistant", "a answer"), 40);
    // conversation A is now the most recently updated
    let m = store.last_assistant_message().expect("found");
    assert_eq!(m.content, "a answer");
}

#[test]
fn last_without_assistant_messages_is_none() {
    let mut store = ConversationStore::new();
    assert!(store.last_assistant_message().is_none());
    let c = store.create_conversation(&new_conv("A"), 10);
    assert!(store.last_assistant_message().is_none());
    store.create_message(&new_msg(&c.id, "user", "just me"), 20);
    assert!(store.last_assistant_message().is_none());
}

#[test]
fn capture_rendering_shows_every_section() {
    let r = build_execution_result(
        "make build".to_string(),
        "/work".to_string(),
        &RunOutcome::Completed(Some(2)),
        "compiling\n".to_string(),
        "error: boom\n".to_string(),
        77,
    );
    let text = format_capture_result(&r);
    assert!(text.contains("Command: make build"));
    assert!(text.contains("Working Directory: /work"));
    assert!(text.contains("Execution Time: 77ms"));
    assert!(text.contains("Exit Code: 2"));
    assert!(text.contains("--- STDOUT ---"));
    assert!(text.contains("compiling"));
    assert!(text.contains("--- STDERR ---"));
    assert!(text.contains("--- ANALYSIS ---"));
    assert!(text.contains("Process exited with code 2"));

    let t = build_execution_result(
        "sleep 9".to_string(),
        ".".to_string(),
        &RunOutcome::TimedOut,
        "".to_string(),
        "".to_string(),
        5000,
    );
    let ttext = format_capture_result(&t);
    assert!(ttext.contains("Status: TIMED OUT"));
    assert!(!ttext.contains("Exit Code:"));
}
