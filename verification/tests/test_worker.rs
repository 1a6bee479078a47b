use monkey::adapters::{Outcome, OutcomeStatus};
use monkey::config::Settings;
use monkey::db::{Event, EventStatus, Store};
use monkey::dispatch::TaskKind;
use monkey::json::Json;
use monkey::worker::{
    Inflight, ROUND_LIMIT, Reservation, Stage, Start, default_branch, plan_event, take_event,
    take_waiting, write_outcome,
};

const SECRET: &str = "secret";

fn convert(value: serde_json::Value) -> Json {
    match value {
        serde_json::Value::Null => Json::Null,
        serde_json::Value::Bool(b) => Json::Bool(b),
        serde_json::Value::Number(n) => match n.as_i64() {
            Some(i) => Json::Int(i),
            None => Json::Number(n.to_string()),
        },
        serde_json::Value::String(s) => Json::Text(s),
        serde_json::Value::Array(items) => Json::Array(items.into_iter().map(convert).collect()),
        serde_json::Value::Object(members) => Json::Object(
            members
                .into_iter()
                .map(|(name, value)| (name, convert(value)))
                .collect(),
        ),
    }
}

fn json(text: &str) -> Json {
    convert(serde_json::from_str(text).unwrap())
}

fn settings() -> Settings {
    Settings {
        github_webhook_secret: SECRET.to_string(),
        bot_login: "monkey".to_string(),
        git_author_name: "monkey".to_string(),
        git_author_email: "monkey@example.com".to_string(),
        repo_allowlist: "acme/widget,foo/bar".to_string(),
        model: "".to_string(),
        thinking: "medium".to_string(),
        provider: "".to_string(),
        session_dir: "/data/sessions".to_string(),
        max_concurrency: 8,
        question_autoclose_hours: 4,
        release_sentinel_enabled: false,
        release_max_rounds: 5,
        gh_proxy_url: "http://gh-proxy:8080".to_string(),
        gh_proxy_hmac_key: "key".to_string(),
        github_token: "".to_string(),
        workspaces_root: "/data/workspaces".to_string(),
    }
}

fn event(id: &str, event_type: &str, number: i64) -> Event {
    Event {
        delivery_id: id.to_string(),
        event_type: event_type.to_string(),
        owner: "acme".to_string(),
        repo: "widget".to_string(),
        number,
        payload: "{}".to_string(),
        status: EventStatus::Pending,
        session_dir: None,
        created_at: 1,
        updated_at: 1,
    }
}

#[test]
fn inflight_key_released_when_task_panics() {
    let mut store = Store::new();
    let mut inflight = Inflight::start(2).unwrap();
    store.enqueue("d1", "issues", "acme", "widget", 1, "{}", 1);
    let first = store.get_pending(10).remove(0);
    assert_eq!(take_event(&mut inflight, &mut store, &first, 2), Start::Work);

    // The issue is held while the event is worked on.
    store.enqueue("d2", "issues", "acme", "widget", 1, "{}", 3);
    let second = store.get_pending(10).remove(0);
    assert_eq!(
        take_event(&mut inflight, &mut store, &second, 4),
        Start::Leave
    );

    // However the work ended, a later event for the same issue must still be
    // schedulable.
    inflight.release("acme", "widget", 1);
    assert_eq!(
        take_event(&mut inflight, &mut store, &second, 5),
        Start::Work
    );
}

#[test]
fn no_concurrency_means_no_worker() {
    assert!(Inflight::start(0).is_none());
}

#[test]
fn issues_are_worked_on_up_to_the_limit() {
    let mut inflight = Inflight::start(2).unwrap();
    assert_eq!(inflight.reserve("a", "b", 1), Reservation::Reserved);
    assert_eq!(inflight.reserve("a", "b", 1), Reservation::Busy);
    assert_eq!(inflight.reserve("a", "b", 2), Reservation::Reserved);
    assert_eq!(inflight.reserve("a", "b", 1), Reservation::Full);
    inflight.release("x", "y", 1);
    assert_eq!(inflight.reserve("a", "b", 3), Reservation::Full);
    inflight.release("a", "b", 1);
    assert_eq!(inflight.reserve("a", "b", 3), Reservation::Reserved);
}

#[test]
fn event_that_does_not_wait_holds_nothing() {
    let mut store = Store::new();
    let mut inflight = Inflight::start(1).unwrap();
    let row = event("gone", "issues", 1);
    assert_eq!(take_event(&mut inflight, &mut store, &row, 2), Start::Leave);
    assert_eq!(
        inflight.reserve("acme", "widget", 1),
        Reservation::Reserved
    );
    assert_eq!(take_event(&mut inflight, &mut store, &row, 2), Start::Stop);
}

#[test]
fn default_branch_is_main_unless_named() {
    assert_eq!(
        default_branch(&json(r#"{"repository":{"default_branch":"master"}}"#)),
        "master"
    );
    assert_eq!(
        default_branch(&json(r#"{"repository":{"default_branch":""}}"#)),
        "main"
    );
    assert_eq!(default_branch(&json("{}")), "main");
}

#[test]
fn plan_of_a_new_issue() {
    let payload = json(
        r#"{"action":"opened","repository":{"default_branch":"trunk"},"issue":{"title":"Fix the crash on save","body":"it dies"}}"#,
    );
    let mut settings = settings();
    settings.model = "m1, m2".to_string();
    let plan = plan_event(&event("d", "issues", 9), &payload, Some("/old"), &settings).unwrap();
    assert_eq!(plan.task.kind, TaskKind::Fix);
    assert_eq!(plan.repo_url, "https://github.com/acme/widget.git");
    assert_eq!(plan.default_branch, "trunk");
    assert_eq!(plan.session_dir, "/data/sessions/acme__widget__9");
    assert_eq!(plan.model, "m1");
    assert!(!plan.resume, "a new issue starts a session of its own");
    assert_eq!(plan.repo_ref.number, 9);
}

#[test]
fn follow_up_goes_on_with_the_earlier_session() {
    let payload = json(
        r#"{"action":"created","issue":{"title":"Crash","body":"it dies"},"comment":{"body":"still broken"}}"#,
    );
    let row = event("d", "issue_comment", 9);
    let plan = plan_event(&row, &payload, Some("/old"), &settings()).unwrap();
    assert!(plan.resume);
    assert_eq!(plan.session_dir, "/old");
    assert_eq!(plan.model, "");
    let plan = plan_event(&row, &payload, None, &settings()).unwrap();
    assert!(!plan.resume);
    assert_eq!(plan.session_dir, "/data/sessions/acme__widget__9");
}

#[test]
fn ignored_event_starts_no_work() {
    let payload = json(r#"{"action":"deleted","issue":{"title":"Crash","body":""}}"#);
    assert!(plan_event(&event("d", "issues", 9), &payload, None, &settings()).is_none());
    assert_eq!(Stage::first(true, false), Stage::MarkIgnored);
    assert_eq!(Stage::MarkIgnored.next(false, true), Stage::Over);
}

#[test]
fn event_whose_payload_cannot_be_read_has_failed() {
    assert_eq!(Stage::first(false, false), Stage::MarkFailed);
    assert_eq!(Stage::MarkFailed.next(false, true), Stage::Over);
}

#[test]
fn outcome_is_recorded_in_the_session() {
    let outcome = Outcome {
        status: OutcomeStatus::Success,
        summary: "s".to_string(),
        pr_body: "p".to_string(),
        comment: "c".to_string(),
        branch: "b".to_string(),
        ..Default::default()
    };
    let (path, record) = write_outcome("/s", &outcome, TaskKind::Fix);
    assert_eq!(path, "/s/outcome.json");
    assert_eq!(
        record,
        Json::Object(
            [
                ("kind", "fix"),
                ("status", "ok"),
                ("summary", "s"),
                ("pr_body", "p"),
                ("comment", "c"),
                ("branch", "b")
            ]
            .into_iter()
            .map(|(name, value)| (name.to_string(), Json::Text(value.to_string())))
            .collect()
        )
    );
}

#[test]
fn stages_of_the_work() {
    let walk = |autoclose: bool, failing: Option<Stage>| {
        let mut stage = Stage::first(true, true);
        let mut seen = Vec::new();
        while stage != Stage::Over {
            seen.push(stage);
            stage = stage.next(autoclose, Some(stage) != failing);
        }
        seen
    };
    assert_eq!(
        walk(false, None),
        vec![
            Stage::Checkout,
            Stage::Engine,
            Stage::Record,
            Stage::WriteBack,
            Stage::MarkDone,
            Stage::Cleanup
        ]
    );
    assert_eq!(walk(true, None)[4], Stage::Schedule);
    assert_eq!(
        walk(true, Some(Stage::Engine)),
        vec![Stage::Checkout, Stage::Engine, Stage::MarkFailed]
    );
    assert_eq!(
        walk(false, Some(Stage::Cleanup)).last(),
        Some(&Stage::Cleanup)
    );
}

#[test]
fn round_takes_what_can_be_worked_on() {
    let mut store = Store::new();
    for (id, number, at) in [("a", 1, 3), ("b", 2, 1), ("c", 2, 2), ("d", 3, 4), ("e", 4, 5)] {
        store.enqueue(id, "issues", "acme", "widget", number, "{}", at);
    }
    let mut inflight = Inflight::start(3).unwrap();
    assert_eq!(
        inflight.reserve("acme", "widget", 1),
        Reservation::Reserved
    );
    let ids = |taken: Vec<Event>| -> Vec<String> {
        taken.into_iter().map(|row| row.delivery_id).collect()
    };
    // The oldest come first, one of each issue, none of an issue that is held,
    // and no more than there is room for.
    assert_eq!(ids(take_waiting(&mut inflight, &mut store, 10)), vec!["b", "d"]);
    assert!(take_waiting(&mut inflight, &mut store, 11).is_empty());
    inflight.release("acme", "widget", 2);
    assert_eq!(ids(take_waiting(&mut inflight, &mut store, 12)), vec!["c"]);
    inflight.release("acme", "widget", 2);
    inflight.release("acme", "widget", 1);
    assert_eq!(
        ids(take_waiting(&mut inflight, &mut store, 13)),
        vec!["a", "e"]
    );
    assert!(store.get_pending(10).is_empty());
}

#[test]
fn round_is_bounded() {
    let mut store = Store::new();
    for number in 0..60 {
        let id = number.to_string();
        store.enqueue(&id, "issues", "acme", "widget", number, "{}", 1);
    }
    let mut inflight = Inflight::start(100).unwrap();
    assert_eq!(
        take_waiting(&mut inflight, &mut store, 2).len(),
        ROUND_LIMIT
    );
    assert_eq!(take_waiting(&mut inflight, &mut store, 2).len(), 10);
}
