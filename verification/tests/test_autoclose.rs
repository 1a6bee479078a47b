use monkey::autoclose::{
    AutoCloseOutcome, BATCH_LIMIT, ClosingAction, ClosingPass, ClosingStep, HOUR, POLL_SECONDS,
    author_downvoted, close_question_issue, due_closings, issue_author_login,
    schedule_question_autoclose, settle_closing,
};
use monkey::db::Store;
use monkey::gh_writeback::RepoRef;
use monkey::host_tools::GHProxy;
use monkey::json::Json;

fn convert(value: serde_json::Value) -> Json {
    match value {
        serde_json::Value::Null => Json::Null,
        serde_json::Value::Bool(b) => Json::Bool(b),
        serde_json::Value::Number(n) => match n.as_i64() {
            Some(i) => Json::Int(i),
            None => Json::Number(n.to_string()),
        },
        serde_json::Value::String(s) => Json::Text(s),
        serde_json::Value::Array(items) => Json::Array(items.into_iter().map(convert).collect()),
        serde_json::Value::Object(members) => Json::Object(
            members
                .into_iter()
                .map(|(name, value)| (name, convert(value)))
                .collect(),
        ),
    }
}

fn json(text: &str) -> Json {
    convert(serde_json::from_str(text).unwrap())
}

fn reaction(content: &str, login: &str) -> Json {
    Json::Object(vec![
        ("content".to_string(), Json::Text(content.to_string())),
        (
            "user".to_string(),
            Json::Object(vec![(
                "login".to_string(),
                Json::Text(login.to_string()),
            )]),
        ),
    ])
}

#[test]
fn test_only_the_author_downvote_vetoes_the_close() {
    let reactions = Json::Array(vec![
        reaction("-1", "someone-else"),
        reaction("+1", "reporter"),
    ]);
    assert!(
        !author_downvoted(&reactions, "reporter"),
        "another user's downvote must not veto the close"
    );

    let reactions = Json::Array(vec![reaction("-1", "REPORTER")]);
    assert!(
        author_downvoted(&reactions, "reporter"),
        "GitHub logins are case-insensitive"
    );
}

#[test]
fn test_non_array_reaction_payload_is_treated_as_no_reactions() {
    // The proxy answers `{"ok": true}` when GitHub returns no body at all.
    assert!(!author_downvoted(&json(r#"{"ok":true}"#), "reporter"));
    assert!(!author_downvoted(&Json::Array(Vec::new()), "reporter"));
}

/// What one pass asks of the proxy, and how many closings it handles.
struct Pass {
    lookups: usize,
    closings: Vec<Json>,
    processed: usize,
}

fn process(store: &mut Store, answer: Option<Json>, now: u64) -> Pass {
    let mut pass = Pass {
        lookups: 0,
        closings: Vec::new(),
        processed: 0,
    };
    let mut queue = ClosingPass::start(store, now);
    loop {
        let (entry, close) = match queue.action() {
            ClosingAction::Ask(entry) => (entry, false),
            ClosingAction::Close(entry) => (entry, true),
            ClosingAction::Finish(processed) => {
                pass.processed = processed;
                return pass;
            }
        };
        let repo_ref = RepoRef {
            owner: entry.owner.clone(),
            repo: entry.repo.clone(),
            number: entry.number,
        };
        let proxy = GHProxy::new("http://proxy/", "key", &repo_ref);
        if close {
            let call = proxy.close_issue();
            assert_eq!(call.path, "/issues/acme/widget/7");
            pass.closings.push(call.payload);
            queue.on_closed(store, true, now);
        } else {
            assert_eq!(
                proxy.list_issue_reactions().path,
                "/issues/acme/widget/7/reactions"
            );
            pass.lookups += 1;
            queue.on_reactions(store, answer.as_ref(), now);
        }
    }
}

fn store_with_due_closing(author_login: &str) -> Store {
    let mut store = Store::new();
    // A time of zero makes the window overdue without depending on the clock.
    store.schedule_autoclose("acme", "widget", 7, author_login, 0);
    store
}

#[test]
fn test_due_question_issue_is_closed() {
    let mut store = store_with_due_closing("reporter");
    let pass = process(&mut store, Some(Json::Array(Vec::new())), 10);
    assert_eq!(pass.processed, 1);
    assert_eq!(pass.lookups, 1);
    assert_eq!(pass.closings.len(), 1, "the issue must be closed exactly once");
    assert_eq!(pass.closings[0].text_at("state"), Some("closed"));
    assert!(store.due_autocloses(10, 11).is_empty());
}

#[test]
fn test_author_downvote_skips_the_close() {
    let mut store = store_with_due_closing("reporter");
    let reactions = Json::Array(vec![reaction("-1", "reporter")]);
    let pass = process(&mut store, Some(reactions), 10);
    assert_eq!(pass.processed, 1);
    assert!(
        pass.closings.is_empty(),
        "a vetoed issue must not be closed"
    );
    // Marked as handled either way, otherwise the vetoed issue is retried
    // forever every poll interval.
    assert!(store.due_autocloses(10, 11).is_empty());
}

#[test]
fn test_failed_reaction_lookup_leaves_the_closing_pending() {
    let mut store = store_with_due_closing("reporter");
    let pass = process(&mut store, None, 10);
    assert_eq!(pass.processed, 0);
    assert!(
        pass.closings.is_empty(),
        "an unreadable reaction list must not close the issue"
    );
    assert_eq!(
        store.due_autocloses(10, 11).len(),
        1,
        "a failed pass must be retried on the next tick"
    );
}

#[test]
fn test_no_due_closing_touches_the_proxy() {
    let mut store = Store::new();
    // A window that is still open must not be closed early.
    store.schedule_autoclose("acme", "widget", 7, "reporter", u64::MAX / 4);
    let pass = process(&mut store, Some(Json::Array(Vec::new())), 10);
    assert_eq!(pass.processed, 0);
    assert_eq!(pass.lookups, 0);
    assert!(pass.closings.is_empty());
}

#[test]
fn closing_is_scheduled_hours_ahead() {
    let repo_ref = RepoRef {
        owner: "acme".into(),
        repo: "widget".into(),
        number: 7,
    };
    let payload = json(r#"{"issue":{"user":{"login":"reporter"}}}"#);
    let mut store = Store::new();
    let entry = schedule_question_autoclose(&mut store, &repo_ref, &payload, 4, 10).unwrap();
    assert_eq!(entry.close_at, 14_400_000_010);
    let due = store.due_autocloses(10, 10 + 4 * HOUR);
    assert_eq!(due.len(), 1);
    assert_eq!(due[0].close_at, 14_400_000_010);
    assert_eq!(due[0].author_login, "reporter");
    assert!(store.due_autocloses(10, 9 + 4 * HOUR).is_empty());

    assert!(schedule_question_autoclose(
        &mut store,
        &repo_ref,
        &payload,
        u64::MAX,
        10
    )
    .is_some());
    assert_eq!(store.due_autocloses(10, u64::MAX)[0].close_at, u64::MAX);
}

#[test]
fn each_step_of_a_closing() {
    let mut store = store_with_due_closing("reporter");
    let mut pass = ClosingPass::start(&store, 10);
    let objection = Json::Array(vec![reaction("-1", "reporter")]);
    assert_eq!(
        pass.on_reactions(&mut store, Some(&objection), 10),
        ClosingStep::Settled(Some(AutoCloseOutcome::AuthorVetoed))
    );
    assert!(matches!(pass.action(), ClosingAction::Finish(1)));

    let mut store = store_with_due_closing("reporter");
    let mut pass = ClosingPass::start(&store, 10);
    assert_eq!(
        pass.on_reactions(&mut store, None, 10),
        ClosingStep::Settled(None)
    );
    assert!(matches!(pass.action(), ClosingAction::Finish(0)));
    assert_eq!(close_question_issue(&objection, "other"), AutoCloseOutcome::Closed);
    assert_eq!(POLL_SECONDS, 60);
}

#[test]
fn question_without_an_author_is_not_closed() {
    let repo_ref = RepoRef {
        owner: "acme".into(),
        repo: "widget".into(),
        number: 7,
    };
    let mut store = Store::new();
    for payload in [
        r#"{"issue":{"user":{"login":""}}}"#,
        r#"{"issue":{}}"#,
        r#"{}"#,
        r#"[]"#,
    ] {
        let payload = json(payload);
        assert_eq!(issue_author_login(&payload), None);
        assert!(schedule_question_autoclose(&mut store, &repo_ref, &payload, 4, 10).is_none());
    }
    assert!(store.due_autocloses(10, u64::MAX).is_empty());
}

#[test]
fn one_pass_is_bounded() {
    let mut store = Store::new();
    for number in 0..60 {
        store.schedule_autoclose("acme", "widget", number, "reporter", 5);
    }
    assert_eq!(due_closings(&store, 5).len(), BATCH_LIMIT);
}

#[test]
fn failure_of_one_closing_does_not_stop_the_others() {
    let mut store = Store::new();
    for number in 1..4 {
        store.schedule_autoclose("acme", "widget", number, "reporter", number as u64);
    }
    let mut pass = ClosingPass::start(&store, 10);
    let mut seen = Vec::new();
    let handled = loop {
        match pass.action() {
            ClosingAction::Ask(entry) => {
                seen.push(entry.number);
                let reactions = Json::Array(Vec::new());
                let step = pass.on_reactions(&mut store, Some(&reactions), 10);
                assert_eq!(step, ClosingStep::Close);
            }
            ClosingAction::Close(entry) => {
                let success = entry.number != 2;
                let step = pass.on_closed(&mut store, success, 10);
                let outcome = if success {
                    Some(AutoCloseOutcome::Closed)
                } else {
                    None
                };
                assert_eq!(step, ClosingStep::Settled(outcome));
            }
            ClosingAction::Finish(handled) => break handled,
        }
    };
    assert_eq!(seen, vec![1, 2, 3]);
    assert_eq!(handled, 2);
    let due = store.due_autocloses(10, 10);
    assert_eq!(due.len(), 1);
    assert_eq!(due[0].number, 2);
    assert!(settle_closing(&mut store, &due[0], Some(AutoCloseOutcome::AuthorVetoed), 11));
    assert!(store.due_autocloses(10, 11).is_empty());
}
