use monkey::db::{EventStatus, Store};
use monkey::host_tools::AuditEntry;

fn entry(tool: &str) -> AuditEntry {
    AuditEntry {
        owner: "acme".to_string(),
        repo: "widget".to_string(),
        number: 1,
        tool: tool.to_string(),
        args: "{}".to_string(),
        result: "{}".to_string(),
    }
}

#[test]
fn test_enqueue_new_event_inserts() {
    let mut store = Store::new();
    let is_new = store.enqueue("d1", "issues", "acme", "widget", 1, "{}", 10);
    assert!(is_new);
}

#[test]
fn test_enqueue_dedup_returns_false() {
    let mut store = Store::new();

    let is_new1 = store.enqueue("d1", "issues", "acme", "widget", 1, "{}", 10);
    assert!(is_new1);

    let is_new2 = store.enqueue("d1", "issues", "acme", "widget", 1, "{}", 11);
    assert!(!is_new2);

    let pending = store.get_pending(10);
    assert_eq!(pending.len(), 1);
    assert_eq!(pending[0].created_at, 10);
}

#[test]
fn test_claim_and_finish_flow() {
    let mut store = Store::new();
    store.enqueue("d1", "issues", "acme", "widget", 1, "{}", 10);

    assert!(store.claim("d1", 11));
    // second claim fails (already running)
    assert!(!store.claim("d1", 12));

    store.done("d1", Some("/data/sessions/x"), 13);
    let pending = store.get_pending(10);
    assert_eq!(pending.len(), 0);

    let event = store.get_latest_event_for_issue("acme", "widget", 1).unwrap();
    assert_eq!(event.status, EventStatus::Done);
    assert_eq!(event.session_dir.as_deref(), Some("/data/sessions/x"));
    assert_eq!(event.created_at, 10);
    assert_eq!(event.updated_at, 13);
}

#[test]
fn test_prior_session_dir_excludes_current_event() {
    let mut store = Store::new();

    // A completed prior run recorded its session dir.
    store.enqueue("seed", "issues", "acme", "widget", 1, "{}", 10);
    store.claim("seed", 11);
    store.done("seed", Some("/sessions/acme__widget__1"), 12);

    // The current pending follow-up event.
    store.enqueue("d1", "issue_comment", "acme", "widget", 1, "{}", 13);

    // Looking up prior history for the current event finds the earlier run...
    let prior = store.prior_session_dir("acme", "widget", 1, "d1");
    assert_eq!(prior.as_deref(), Some("/sessions/acme__widget__1"));

    // ...and the current event itself never counts as prior history.
    let none = store.prior_session_dir("acme", "widget", 1, "seed");
    assert_eq!(none, None);
}

#[test]
fn test_prior_session_dir_ignores_events_without_session() {
    let mut store = Store::new();

    // Skipped events complete without a session dir.
    store.enqueue("skip", "issues", "acme", "widget", 1, "{}", 10);
    store.done("skip", None, 11);

    let prior = store.prior_session_dir("acme", "widget", 1, "other");
    assert_eq!(prior, None);
}

#[test]
fn test_audit_tool_call_recorded() {
    let mut store = Store::new();
    store.audit_tool_call(entry("/issues/1/comment"), 10);
    store.audit_tool_call(entry("/git/push"), 11);

    let calls = store.tool_calls();
    assert_eq!(calls.len(), 2);
    assert_eq!(calls[0].tool, "/issues/1/comment");
    assert_eq!(calls[0].id, 1);
    assert_eq!(calls[1].id, 2);
    assert_eq!(calls[1].created_at, 11);
}

#[test]
fn test_autoclose_is_only_due_once() {
    let mut store = Store::new();
    store.schedule_autoclose("acme", "widget", 7, "reporter", 1000);

    let due = store.due_autocloses(10, 5000);
    assert_eq!(due.len(), 1);
    assert_eq!(due[0].author_login, "reporter");
    assert_eq!(due[0].number, 7);
    assert_eq!(due[0].closed_at, None);

    store.complete_autoclose("acme", "widget", 7, 5000);
    assert!(store.due_autocloses(10, 6000).is_empty());
}

#[test]
fn test_autoclose_reschedule_reopens_the_window() {
    let mut store = Store::new();
    store.schedule_autoclose("acme", "widget", 7, "reporter", 1000);
    store.complete_autoclose("acme", "widget", 7, 1500);

    // A later answer on the same issue starts a fresh window instead of being
    // closed immediately because the previous one already ran.
    store.schedule_autoclose("acme", "widget", 7, "maintainer", 2000);

    let due = store.due_autocloses(10, 5000);
    assert_eq!(due.len(), 1, "rescheduling must reopen the window");
    assert_eq!(due[0].author_login, "maintainer");
    assert_eq!(due[0].close_at, 2000);
}

#[test]
fn test_due_autocloses_orders_by_close_at_and_respects_limit() {
    let mut store = Store::new();
    for (number, close_at) in [(1, 300), (2, 100), (3, 200)] {
        store.schedule_autoclose("acme", "widget", number, "reporter", close_at);
    }

    let due = store.due_autocloses(2, 5000);
    let numbers: Vec<i64> = due.iter().map(|entry| entry.number).collect();
    assert_eq!(numbers, vec![2, 3], "oldest window must be handled first");
}

#[test]
fn open_window_is_not_due() {
    let mut store = Store::new();
    store.schedule_autoclose("acme", "widget", 7, "reporter", 1000);
    assert!(store.due_autocloses(10, 999).is_empty());
    assert_eq!(store.due_autocloses(10, 1000).len(), 1);
}

#[test]
fn pending_events_come_oldest_first() {
    let mut store = Store::new();
    for (id, at) in [("c", 30), ("a", 10), ("b1", 20), ("b2", 20)] {
        store.enqueue(id, "issues", "acme", "widget", 1, "{}", at);
    }
    store.claim("a", 40);
    let ids: Vec<String> = store
        .get_pending(10)
        .into_iter()
        .map(|event| event.delivery_id)
        .collect();
    assert_eq!(ids, vec!["b1", "b2", "c"]);
    assert_eq!(store.get_pending(1)[0].delivery_id, "b1");
    assert!(store.get_pending(0).is_empty());
}

#[test]
fn latest_event_is_by_issue() {
    let mut store = Store::new();
    store.enqueue("new", "issues", "acme", "widget", 1, "{}", 30);
    store.enqueue("old", "issues", "acme", "widget", 1, "{}", 10);
    store.enqueue("other", "issues", "acme", "widget", 2, "{}", 90);
    let event = store.get_latest_event_for_issue("acme", "widget", 1).unwrap();
    assert_eq!(event.delivery_id, "new");
    assert!(store.get_latest_event_for_issue("acme", "gadget", 1).is_none());
}

#[test]
fn status_counts_are_by_name() {
    let mut store = Store::new();
    assert!(store.status_counts().is_empty());
    for id in ["a", "b", "c", "d", "e"] {
        store.enqueue(id, "issues", "acme", "widget", 1, "{}", 1);
    }
    store.claim("a", 2);
    store.fail("b", 2);
    store.done("c", None, 2);
    store.done("missing", None, 2);
    let counts = store.status_counts();
    assert_eq!(
        counts,
        vec![
            ("done".to_string(), 1),
            ("error".to_string(), 1),
            ("pending".to_string(), 2),
            ("running".to_string(), 1)
        ]
    );
}

#[test]
fn restored_rows_keep_their_state() {
    let mut first = Store::new();
    first.enqueue("a", "issues", "acme", "widget", 1, "{}", 1);
    first.claim("a", 2);
    first.schedule_autoclose("acme", "widget", 1, "reporter", 5);

    let mut second = Store::new();
    let row = first.get_latest_event_for_issue("acme", "widget", 1).unwrap();
    assert!(second.restore_event(row.copy()));
    assert!(!second.restore_event(row));
    assert!(!second.claim("a", 3), "a running event is not pending");
    for closing in first.due_autocloses(10, 5) {
        second.restore_closing(closing);
    }
    assert_eq!(second.due_autocloses(10, 5).len(), 1);
}

#[test]
fn event_statuses_read_back() {
    for status in [
        EventStatus::Pending,
        EventStatus::Running,
        EventStatus::Done,
        EventStatus::Error,
    ] {
        assert_eq!(EventStatus::from_str(status.as_str()), Ok(status));
    }
    assert_eq!(
        EventStatus::from_str("Pending"),
        Err("unknown event status: Pending".to_string())
    );
}

#[test]
fn test_db_test_enqueue_new_event_inserts() {
    let mut store = Store::new();
    let is_new = store.enqueue("d1", "issues", "acme", "widget", 1, "{}", 10);
    assert!(is_new);
}

#[test]
fn test_db_test_enqueue_dedup_returns_false() {
    let mut store = Store::new();

    let is_new1 = store.enqueue("d1", "issues", "acme", "widget", 1, "{}", 10);
    assert!(is_new1);

    let is_new2 = store.enqueue("d1", "issues", "acme", "widget", 1, "{}", 11);
    assert!(!is_new2);

    let pending = store.get_pending(10);
    assert_eq!(pending.len(), 1);
    assert_eq!(pending[0].created_at, 10);
}

#[test]
fn test_db_test_claim_and_finish_flow() {
    let mut store = Store::new();
    store.enqueue("d1", "issues", "acme", "widget", 1, "{}", 10);

    assert!(store.claim("d1", 11));
    // second claim fails (already running)
    assert!(!store.claim("d1", 12));

    store.done("d1", Some("/data/sessions/x"), 13);
    let pending = store.get_pending(10);
    assert_eq!(pending.len(), 0);

    let event = store.get_latest_event_for_issue("acme", "widget", 1).unwrap();
    assert_eq!(event.status, EventStatus::Done);
    assert_eq!(event.session_dir.as_deref(), Some("/data/sessions/x"));
    assert_eq!(event.created_at, 10);
    assert_eq!(event.updated_at, 13);
}

#[test]
fn test_db_test_audit_tool_call_recorded() {
    let mut store = Store::new();
    store.audit_tool_call(entry("/issues/1/comment"), 10);
    store.audit_tool_call(entry("/git/push"), 11);

    let calls = store.tool_calls();
    assert_eq!(calls.len(), 2);
    assert_eq!(calls[0].tool, "/issues/1/comment");
    assert_eq!(calls[0].id, 1);
    assert_eq!(calls[1].id, 2);
    assert_eq!(calls[1].created_at, 11);
}
