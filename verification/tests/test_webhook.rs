use monkey::config::Settings;
use monkey::db::Store;
use monkey::gh_proxy::Reply;
use monkey::hmac_auth::hmac_sign;
use monkey::json::{Doc, Json, Part};
use monkey::webhook::{Routed, admit_delivery, enqueue_reply, parse_target, route_delivery};

const SECRET: &str = "test-webhook-secret";

fn convert(value: serde_json::Value) -> Json {
    match value {
        serde_json::Value::Null => Json::Null,
        serde_json::Value::Bool(b) => Json::Bool(b),
        serde_json::Value::Number(n) => match n.as_i64() {
            Some(i) => Json::Int(i),
            None => Json::Number(n.to_string()),
        },
        serde_json::Value::String(s) => Json::Text(s),
        serde_json::Value::Array(items) => Json::Array(items.into_iter().map(convert).collect()),
        serde_json::Value::Object(members) => Json::Object(
            members
                .into_iter()
                .map(|(name, value)| (name, convert(value)))
                .collect(),
        ),
    }
}

fn json(text: &str) -> Json {
    convert(serde_json::from_str(text).unwrap())
}

fn part(part: Part) -> Json {
    match part {
        Part::Value(value) => value,
        Part::Unread(text) => json(&text.text),
        Part::Listed(texts) => {
            Json::Array(texts.into_iter().map(|text| json(&text.text)).collect())
        }
    }
}

/// The JSON that a document is sent as.
fn read(doc: Doc) -> Json {
    match doc {
        Doc::Whole(whole) => part(whole),
        Doc::Members(members) => Json::Object(
            members
                .into_iter()
                .map(|(name, value)| (name, part(value)))
                .collect(),
        ),
    }
}

fn settings() -> Settings {
    Settings {
        github_webhook_secret: SECRET.to_string(),
        bot_login: "monkey".to_string(),
        git_author_name: "monkey".to_string(),
        git_author_email: "monkey@example.com".to_string(),
        repo_allowlist: "acme/widget,foo/bar".to_string(),
        model: "".to_string(),
        thinking: "medium".to_string(),
        provider: "".to_string(),
        session_dir: "/data/sessions".to_string(),
        max_concurrency: 8,
        question_autoclose_hours: 4,
        release_sentinel_enabled: false,
        release_max_rounds: 5,
        gh_proxy_url: "http://gh-proxy:8080".to_string(),
        gh_proxy_hmac_key: "key".to_string(),
        github_token: "".to_string(),
        workspaces_root: "/data/workspaces".to_string(),
    }
}

/// The way of one delivery through the webhook.
fn deliver(
    store: &mut Store,
    body: &str,
    signature: Option<&str>,
    delivery: Option<&str>,
    event: &str,
) -> Reply {
    let settings = settings();
    if let Some(reply) = admit_delivery(&settings, Some(body.as_bytes()), signature, delivery) {
        return reply;
    }
    let payload = serde_json::from_str(body).ok().map(convert);
    match route_delivery(&settings, event, payload.as_ref()) {
        Routed::Answer(reply) => reply,
        Routed::Enqueue {
            owner,
            repo,
            number,
        } => {
            let id = delivery.unwrap();
            enqueue_reply(Ok(
                store.enqueue(id, event, &owner, &repo, number, body, 10)
            ))
        }
    }
}

#[test]
fn test_webhook_missing_signature_returns_401() {
    let mut store = Store::new();
    let reply = deliver(
        &mut store,
        r#"{"action":"opened"}"#,
        None,
        Some("d1"),
        "issues",
    );
    assert_eq!(reply.status, 401);
    assert_eq!(read(reply.body).text_at("detail"), Some("bad signature"));
}

#[test]
fn test_webhook_valid_signature_enqueues_event() {
    let mut store = Store::new();
    let body = r#"{"action":"opened","repository":{"name":"widget","owner":{"login":"acme"}},"issue":{"number":42,"title":"Bug in login","body":"It crashes"}}"#;
    let signature = hmac_sign(SECRET, body.as_bytes());
    let reply = deliver(&mut store, body, Some(&signature), Some("d-12345"), "issues");
    assert_eq!(reply.status, 200);
    let body_sent = read(reply.body);
    assert_eq!(body_sent.get("ok"), Some(&Json::Bool(true)));
    assert_eq!(body_sent.get("new"), Some(&Json::Bool(true)));

    let pending = store.get_pending(10);
    assert_eq!(pending.len(), 1);
    assert_eq!(pending[0].delivery_id, "d-12345");
    assert_eq!(pending[0].owner, "acme");
    assert_eq!(pending[0].repo, "widget");
    assert_eq!(pending[0].number, 42);

    let reply = deliver(&mut store, body, Some(&signature), Some("d-12345"), "issues");
    assert_eq!(read(reply.body).get("new"), Some(&Json::Bool(false)));
    assert_eq!(store.get_pending(10).len(), 1);
}

#[test]
fn test_webhook_skips_configured_bot_sender() {
    let mut store = Store::new();
    let body = r#"{"action":"opened","sender":{"login":"MONKEY"},"repository":{"name":"widget","owner":{"login":"acme"}},"issue":{"number":42,"title":"Bug","body":"crash"}}"#;
    let signature = hmac_sign(SECRET, body.as_bytes());
    let reply = deliver(
        &mut store,
        body,
        Some(&signature),
        Some("bot-delivery"),
        "issues",
    );
    assert_eq!(reply.status, 200);
    assert_eq!(read(reply.body).text_at("skipped"), Some("bot-authored event"));
    assert!(store.get_pending(10).is_empty());
}

#[test]
fn test_webhook_skips_pull_request_event() {
    let mut store = Store::new();
    let body = r#"{"action":"synchronize","repository":{"name":"widget","owner":{"login":"acme"}},"pull_request":{"number":44,"title":"Fix crash"}}"#;
    let signature = hmac_sign(SECRET, body.as_bytes());
    let reply = deliver(
        &mut store,
        body,
        Some(&signature),
        Some("pr-delivery"),
        "pull_request",
    );
    assert_eq!(reply.status, 200);
    assert_eq!(
        read(reply.body).text_at("skipped"),
        Some("not an actionable event")
    );
    assert!(store.get_pending(10).is_empty());
}

#[test]
fn test_webhook_skips_github_bot_sender() {
    let mut store = Store::new();
    let body = r#"{"action":"opened","sender":{"login":"dependabot[bot]","type":"Bot"},"repository":{"name":"widget","owner":{"login":"acme"}},"issue":{"number":43,"title":"Bug","body":"crash"}}"#;
    let signature = hmac_sign(SECRET, body.as_bytes());
    let reply = deliver(
        &mut store,
        body,
        Some(&signature),
        Some("bot-delivery-2"),
        "issues",
    );
    assert_eq!(reply.status, 200);
    assert!(store.get_pending(10).is_empty());
}

#[test]
fn delivery_needs_a_body_and_an_id() {
    let settings = settings();
    let signature = hmac_sign(SECRET, b"{}");
    let refused = admit_delivery(&settings, None, Some(&signature), Some("d")).unwrap();
    assert_eq!(refused.status, 400);
    assert_eq!(read(refused.body).text_at("detail"), Some("failed to read body"));
    for id in [None, Some("")] {
        let refused = admit_delivery(&settings, Some(b"{}"), Some(&signature), id).unwrap();
        assert_eq!(refused.status, 400);
        assert_eq!(
            read(refused.body).text_at("detail"),
            Some("missing x-github-delivery")
        );
    }
    assert!(admit_delivery(&settings, Some(b"{}"), Some(&signature), Some("d")).is_none());
    assert!(admit_delivery(&settings, Some(b"{ }"), Some(&signature), Some("d")).is_some());
}

#[test]
fn body_that_is_not_json_is_refused() {
    match route_delivery(&settings(), "issues", None) {
        Routed::Answer(reply) => {
            assert_eq!(reply.status, 400);
            assert_eq!(read(reply.body).text_at("detail"), Some("invalid json"));
        }
        other => panic!("expected an answer, got {other:?}"),
    }
}

#[test]
fn only_listed_repositories_are_served() {
    let payload = json(
        r#"{"repository":{"name":"gadget","owner":{"login":"acme"}},"issue":{"number":1}}"#,
    );
    match route_delivery(&settings(), "issues", Some(&payload)) {
        Routed::Answer(reply) => assert_eq!(
            read(reply.body).text_at("skipped"),
            Some("repo not in allowlist")
        ),
        other => panic!("expected an answer, got {other:?}"),
    }
}

#[test]
fn targets_of_deliveries() {
    let payload = json(
        r#"{"repository":{"name":"bar","owner":{"name":"foo"}},"pull_request":{"number":5},"review":{"number":6}}"#,
    );
    assert_eq!(
        parse_target("pull_request_review", &payload),
        (Some("foo".to_string()), Some("bar".to_string()), Some(5))
    );
    assert_eq!(parse_target("push", &payload), (None, None, None));
    let payload = json(r#"{"repository":{"name":"bar","owner":{"login":3}},"issue":{}}"#);
    assert_eq!(
        parse_target("issues", &payload),
        (None, Some("bar".to_string()), None)
    );
}

#[test]
fn store_failure_is_an_internal_error() {
    let reply = enqueue_reply(Err("disk full".to_string()));
    assert_eq!(reply.status, 500);
}
