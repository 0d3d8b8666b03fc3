use rig_discord_history::chat_history::{
    copy_log, record_name, user_of_record, ChatHistoryManager, ChatMessage, UserHistory,
};
use rig_discord_history::context::{build_prompt, format_history};
use rig_discord_history::rig_agent::{RigAgent, TurnError};

fn msg(role: &str, content: &str, timestamp: i64) -> ChatMessage {
    ChatMessage::new(role.to_string(), content.to_string(), timestamp)
}

#[test]
fn appends_come_back_in_call_order() {
    let mut m = ChatHistoryManager::new("chat_histories");
    let sent = vec![msg("user", "one", 1), msg("assistant", "two", 2), msg("user", "three", 3)];
    for s in &sent {
        m.add_message("alice", s.clone());
    }
    assert_eq!(m.get_history("alice"), sent);
}

#[test]
fn add_message_returns_the_whole_record() {
    let mut m = ChatHistoryManager::new("chat_histories");
    let first = m.add_message("alice", msg("user", "a", 10));
    assert_eq!(first, vec![msg("user", "a", 10)]);
    let second = m.add_message("alice", msg("assistant", "b", 11));
    assert_eq!(second, vec![msg("user", "a", 10), msg("assistant", "b", 11)]);
}

#[test]
fn interleaved_users_stay_apart() {
    let mut m = ChatHistoryManager::new("chat_histories");
    let ra1 = m.add_message("alice", msg("user", "a1", 1));
    let rb1 = m.add_message("bob", msg("user", "b1", 2));
    let ra2 = m.add_message("alice", msg("user", "a2", 3));
    let rb2 = m.add_message("bob", msg("user", "b2", 4));
    assert_eq!(ra1, vec![msg("user", "a1", 1)]);
    assert_eq!(rb1, vec![msg("user", "b1", 2)]);
    assert_eq!(ra2, vec![msg("user", "a1", 1), msg("user", "a2", 3)]);
    assert_eq!(rb2, vec![msg("user", "b1", 2), msg("user", "b2", 4)]);
    assert_eq!(m.get_history("alice"), ra2);
    assert_eq!(m.get_history("bob"), rb2);
}

#[test]
fn unknown_user_has_empty_history() {
    let mut m = ChatHistoryManager::new("chat_histories");
    assert!(m.get_history("unknown-user").is_empty());
    m.add_message("someone", msg("user", "x", 1));
    assert!(m.get_history("unknown-user").is_empty());
}

#[test]
fn records_reload_into_the_same_store() {
    let mut m = ChatHistoryManager::new("chat_histories");
    m.add_message("alice", msg("user", "hello", 5));
    m.add_message("bob", msg("user", "yo", 6));
    m.add_message("alice", msg("assistant", "hi there", 7));
    let records = vec![
        ("alice".to_string(), m.get_history("alice")),
        ("bob".to_string(), m.get_history("bob")),
    ];
    let mut fresh = ChatHistoryManager::new("chat_histories");
    fresh.load_histories(records);
    assert_eq!(fresh.get_history("alice"), m.get_history("alice"));
    assert_eq!(fresh.get_history("bob"), m.get_history("bob"));
}

#[test]
fn later_record_replaces_earlier() {
    let mut m = ChatHistoryManager::new("data");
    m.load_histories(vec![
        ("alice".to_string(), vec![msg("user", "old", 1)]),
        ("alice".to_string(), vec![msg("user", "new", 2)]),
    ]);
    assert_eq!(m.get_history("alice"), vec![msg("user", "new", 2)]);
}

#[test]
fn load_record_then_append() {
    let mut m = ChatHistoryManager::new("data");
    m.load_record("carol", vec![msg("user", "q", 1), msg("assistant", "r", 2)]);
    let rec = m.add_message("carol", msg("user", "again", 3));
    assert_eq!(rec, vec![msg("user", "q", 1), msg("assistant", "r", 2), msg("user", "again", 3)]);
}

#[test]
fn storage_path_is_kept() {
    let m = ChatHistoryManager::new("chat_histories");
    assert_eq!(m.storage_path(), "chat_histories".to_string());
}

#[test]
fn record_names() {
    assert_eq!(record_name("12345"), "12345.json".to_string());
    assert_eq!(user_of_record("12345.json"), Some("12345".to_string()));
    assert_eq!(user_of_record("a.b.json"), Some("a.b".to_string()));
    assert_eq!(user_of_record(".json"), None);
    assert_eq!(user_of_record("notes.txt"), None);
    assert_eq!(user_of_record("json"), None);
    assert_eq!(user_of_record(&record_name("user-9")), Some("user-9".to_string()));
}

#[test]
fn user_history_push_and_copy() {
    let mut h = UserHistory::new();
    assert_eq!(h.len(), 0);
    h.push(msg("user", "a", 1));
    h.push(msg("assistant", "b", 2));
    assert_eq!(h.len(), 2);
    assert_eq!(h.messages(), vec![msg("user", "a", 1), msg("assistant", "b", 2)]);
    let h2 = UserHistory::from_messages(copy_log(&h.messages()));
    assert_eq!(h2.messages(), h.messages());
}

#[test]
fn prompt_without_history_is_the_message() {
    assert_eq!(build_prompt(&vec![], "hi"), "hi".to_string());
}

#[test]
fn prompt_with_history() {
    let h = vec![msg("user", "a", 1), msg("assistant", "b", 2)];
    assert_eq!(
        build_prompt(&h, "c"),
        "Previous conversation:\nuser: a\nassistant: b\n\nCurrent message: c".to_string()
    );
}

#[test]
fn prompt_with_one_message() {
    let h = vec![msg("user", "", 1)];
    assert_eq!(build_prompt(&h, "next"), "Previous conversation:\nuser: \n\nCurrent message: next".to_string());
    assert_eq!(format_history(&h), "user: ".to_string());
}

#[test]
fn prompt_is_deterministic() {
    let h = vec![msg("user", "x", 1)];
    assert_eq!(build_prompt(&h, "y"), build_prompt(&h, "y"));
}

#[test]
fn prepare_prompt_uses_the_users_history() {
    let mut m = ChatHistoryManager::new("data");
    m.add_message("alice", msg("user", "a", 1));
    m.add_message("alice", msg("assistant", "b", 2));
    m.add_message("bob", msg("user", "other", 3));
    let agent = RigAgent::new(m);
    assert_eq!(
        agent.prepare_prompt("alice", "c"),
        "Previous conversation:\nuser: a\nassistant: b\n\nCurrent message: c".to_string()
    );
    assert_eq!(agent.prepare_prompt("nobody", "hi"), "hi".to_string());
}

#[test]
fn failed_turn_records_nothing() {
    let mut m = ChatHistoryManager::new("data");
    m.add_message("alice", msg("user", "a", 1));
    let mut agent = RigAgent::new(m);
    let before = agent.get_history("alice");
    let r = agent.process_message("alice", "question", Err("engine down".to_string()));
    match r {
        Err(TurnError::Engine(e)) => assert_eq!(e, "engine down".to_string()),
        _ => panic!("expected an engine error"),
    }
    assert_eq!(agent.get_history("alice"), before);
    let r2 = agent.record_turn("bob", "q", Err("timeout".to_string()), 1, 2);
    assert!(matches!(r2, Err(TurnError::Engine(_))));
    assert!(agent.get_history("bob").is_empty());
}

#[test]
fn successful_turn_records_question_then_reply() {
    let mut agent = RigAgent::new(ChatHistoryManager::new("data"));
    let r = agent.record_turn("alice", "what?", Ok("that.".to_string()), 100, 101);
    let c = match r {
        Ok(c) => c,
        Err(_) => panic!("expected a reply"),
    };
    assert_eq!(c.reply, "that.".to_string());
    assert_eq!(c.after_user, vec![msg("user", "what?", 100)]);
    let both = vec![msg("user", "what?", 100), msg("assistant", "that.", 101)];
    assert_eq!(c.after_reply, both);
    assert_eq!(agent.get_history("alice"), both);
}

#[test]
fn process_message_stamps_current_time() {
    let mut agent = RigAgent::new(ChatHistoryManager::new("data"));
    let r = agent.process_message("alice", "hello", Ok("hey".to_string()));
    assert!(r.is_ok());
    let h = agent.get_history("alice");
    assert_eq!(h.len(), 2);
    assert_eq!(h[0].role, "user".to_string());
    assert_eq!(h[0].content, "hello".to_string());
    assert_eq!(h[1].role, "assistant".to_string());
    assert_eq!(h[1].content, "hey".to_string());
    assert!(h[0].timestamp > 1_500_000_000);
    assert!(h[1].timestamp >= h[0].timestamp);
}
