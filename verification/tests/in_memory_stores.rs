use serde_json::Value;
use stateless_codex::support::in_memory::{MemoryStore, SessionStore};
use stateless_codex::{
    AgentErrorCode, LedgerEvent, Memory, SessionEventPayload, SessionListQuery, SessionSearchQuery, SessionSummary,
};

fn summary(id: &str, title: &str, updated_at: i64) -> SessionSummary {
    SessionSummary { session_id: id.to_string(), title: title.to_string(), created_at: 0, updated_at, message_count: 0 }
}

fn event(seq: u64) -> LedgerEvent {
    LedgerEvent { seq, timestamp: seq as i64, payload: SessionEventPayload::Metadata { key: "k".to_string(), value: Value::Null } }
}

fn memory(namespace: &str, id: &str, content: &str, updated_at: i64) -> Memory {
    Memory {
        id: id.to_string(),
        namespace: namespace.to_string(),
        content: content.to_string(),
        source: None,
        tags: Vec::new(),
        created_at: 0,
        updated_at,
    }
}

fn store() -> SessionStore {
    let mut store = SessionStore::new();
    store.append_event("b", &event(1), &summary("b", "Beta plan", 20));
    store.append_event("a", &event(1), &summary("a", "alpha notes", 30));
    store.append_event("c", &event(1), &summary("c", "Gamma", 20));
    store.append_event("b", &event(2), &summary("b", "Beta plan", 20));
    store
}

fn ids(items: &[SessionSummary]) -> Vec<&str> {
    items.iter().map(|s| s.session_id.as_str()).collect()
}

#[test]
fn sessions_keep_their_events() {
    let store = store();
    let events = store.load_events("b").unwrap();
    assert_eq!(events.iter().map(|e| e.seq).collect::<Vec<_>>(), vec![1, 2]);
    let error = store.load_events("zzz").unwrap_err();
    assert_eq!(error.code, AgentErrorCode::SessionNotFound);
    assert_eq!(error.message, "session not found");
}

#[test]
fn sessions_are_listed_by_recency_in_pages() {
    let store = store();
    let page = store.list_sessions(&SessionListQuery { cursor: None, limit: 2 });
    assert_eq!(ids(&page.items), vec!["a", "b"]);
    assert_eq!(page.next_cursor, Some("b".to_string()));
    let page = store.list_sessions(&SessionListQuery { cursor: Some("b".to_string()), limit: 2 });
    assert_eq!(ids(&page.items), vec!["c"]);
    assert_eq!(page.next_cursor, None);
    let page = store.list_sessions(&SessionListQuery { cursor: Some("unknown".to_string()), limit: 10 });
    assert_eq!(ids(&page.items), vec!["a", "b", "c"]);
    let page = store.list_sessions(&SessionListQuery { cursor: None, limit: 0 });
    assert!(page.items.is_empty());
    assert_eq!(page.next_cursor, None);
}

#[test]
fn sessions_are_found_case_insensitively() {
    let store = store();
    let found = store.find_sessions(&SessionSearchQuery::TitleContains("PLAN".to_string()), 10);
    assert_eq!(ids(&found), vec!["b"]);
    let found = store.find_sessions(&SessionSearchQuery::IdPrefix("A".to_string()), 10);
    assert_eq!(ids(&found), vec!["a"]);
    let found = store.find_sessions(&SessionSearchQuery::IdPrefixOrTitle("a".to_string()), 10);
    assert_eq!(ids(&found), vec!["a", "b", "c"]);
    // The first two matches by key are `a` and `b`, listed by recency.
    let found = store.find_sessions(&SessionSearchQuery::IdPrefixOrTitle("a".to_string()), 2);
    assert_eq!(ids(&found), vec!["a", "b"]);
}

#[test]
fn deleted_sessions_are_gone() {
    let mut store = store();
    store.delete_session("a");
    store.delete_session("missing");
    assert!(store.load_events("a").is_err());
    assert_eq!(store.list_sessions(&SessionListQuery { cursor: None, limit: 10 }).items.len(), 2);
}

#[test]
fn memories_are_upserted_searched_and_listed() {
    let mut store = MemoryStore::new();
    store.upsert(memory("ns", "m2", "Likes TEA", 5));
    store.upsert(memory("ns", "m1", "likes coffee", 5));
    store.upsert(memory("ns", "m3", "walks", 9));
    store.upsert(memory("other", "m1", "tea too", 50));
    store.upsert(memory("ns", "m3", "walks daily", 1));
    let ids = |v: Vec<Memory>| v.into_iter().map(|m| m.id).collect::<Vec<_>>();
    assert_eq!(ids(store.list_all("ns")), vec!["m1", "m2", "m3"]);
    assert_eq!(ids(store.list_recent("ns", 10)), vec!["m1", "m2", "m3"]);
    assert_eq!(ids(store.list_recent("ns", 1)), vec!["m1"]);
    assert_eq!(ids(store.search("ns", "tea", 10)), vec!["m2"]);
    assert_eq!(ids(store.search("ns", "LIKES", 10)), vec!["m1", "m2"]);
    assert_eq!(store.list_all("ns")[2].content, "walks daily");
    store.delete("ns", "m1");
    store.delete("ns", "missing");
    assert_eq!(ids(store.list_all("ns")), vec!["m2", "m3"]);
    assert_eq!(ids(store.list_all("other")), vec!["m1"]);
}
