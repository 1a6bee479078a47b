use monkey::gh_writeback::RepoRef;
use monkey::host_tools::{
    GHProxy, GhProxyError, Method, empty_success_value, judge_answer, redact, status_failed,
};
use monkey::json::{Json, JsonText, Part};

fn unread(text: &str) -> Part {
    Part::Unread(JsonText {
        text: text.to_string(),
    })
}

fn proxy() -> GHProxy {
    let repo_ref = RepoRef {
        owner: "acme".into(),
        repo: "widget".into(),
        number: 123,
    };
    GHProxy::new("http://127.0.0.1:8080", "key", &repo_ref)
}

#[test]
fn test_push_builds_the_right_request() {
    let call = proxy().push("/data/wt", "farm/abc1234/widget");
    assert_eq!(call.method, Method::Post);
    assert_eq!(call.path, "/git/push");
    assert_eq!(call.payload.text_at("worktree"), Some("/data/wt"));
    assert_eq!(
        call.payload.text_at("branch"),
        Some("farm/abc1234/widget")
    );
    assert_eq!(call.payload.text_at("repo"), Some("acme/widget"));
    let (_, result) = proxy().conclude(Method::Post, "/git/push", "{}", 200, r#"{"ok":true}"#);
    assert_eq!(result.unwrap(), unread(r#"{"ok":true}"#));
}

#[test]
fn test_list_pull_requests_builds_the_right_request() {
    let call = proxy().list_pull_requests(Some("acme:farm/123/branch"), Some("open"));
    assert_eq!(call.method, Method::Get);
    assert_eq!(
        call.path,
        "/pulls/acme/widget?head=acme:farm/123/branch&state=open"
    );
    assert_eq!(
        proxy().list_pull_requests(Some("h"), None).path,
        "/pulls/acme/widget?head=h"
    );
    assert_eq!(
        proxy().list_pull_requests(None, Some("all")).path,
        "/pulls/acme/widget?state=all"
    );
    assert_eq!(
        proxy().list_pull_requests(None, None).path,
        "/pulls/acme/widget"
    );
}

#[test]
fn test_update_pull_request_builds_the_right_request() {
    let payload = Json::Object(vec![(
        "title".to_string(),
        Json::Text("New Title".to_string()),
    )]);
    let call = proxy().update_pull_request(42, payload);
    assert_eq!(call.method, Method::Patch);
    assert_eq!(call.path, "/pulls/acme/widget/42");
    assert_eq!(call.payload.text_at("title"), Some("New Title"));
}

#[test]
fn test_call_handles_empty_response() {
    let call = proxy().add_labels(&vec!["bug".to_string()]);
    assert_eq!(call.path, "/issues/acme/widget/123/labels");
    assert_eq!(
        call.payload.get("labels"),
        Some(&Json::Array(vec![Json::Text("bug".to_string())]))
    );
    let (_, result) = proxy().conclude(call.method, &call.path, "{}", 200, "");
    assert_eq!(result.unwrap(), Part::Value(empty_success_value()));
    assert_eq!(
        empty_success_value().get("ok"),
        Some(&Json::Bool(true))
    );
}

#[test]
fn calls_on_an_issue() {
    let call = proxy().add_issue_comment("hi");
    assert_eq!(call.method, Method::Post);
    assert_eq!(call.path, "/issues/acme/widget/123/comment");
    assert_eq!(call.payload.text_at("body"), Some("hi"));
    let call = proxy().update_issue(Json::Null);
    assert_eq!(call.method, Method::Patch);
    assert_eq!(call.path, "/issues/acme/widget/123");
    let call = proxy().close_issue();
    assert_eq!(call.method, Method::Patch);
    assert_eq!(call.payload.text_at("state"), Some("closed"));
    let call = proxy().list_issue_reactions();
    assert_eq!(call.method, Method::Get);
    let call = proxy().open_pull_request(Json::Null);
    assert_eq!(call.method, Method::Post);
    assert_eq!(call.path, "/pulls/acme/widget");
}

#[test]
fn refusals_carry_status_and_body() {
    let (entry, result) =
        proxy().conclude(Method::Post, "/p", r#"{"a":"ghp_abc1"}"#, 422, " ghs_secret9! ");
    assert_eq!(entry.owner, "acme");
    assert_eq!(entry.repo, "widget");
    assert_eq!(entry.number, 123);
    assert_eq!(entry.tool, "/p");
    assert_eq!(entry.args, r#"{"a":"[redacted]"}"#);
    assert_eq!(entry.result, " [redacted]! ");
    match result.unwrap_err() {
        GhProxyError::Status {
            method,
            path,
            status,
            body,
        } => {
            assert_eq!(method, Method::Post);
            assert_eq!(path, "/p");
            assert_eq!(status, 422);
            assert_eq!(body, " [redacted]! ");
        }
        other => panic!("expected a status, got {other:?}"),
    }
}

#[test]
fn answers_that_are_not_json_cannot_be_used() {
    let (_, result) = proxy().conclude(Method::Get, "/p", "{}", 200, "<html>");
    assert!(matches!(result, Err(GhProxyError::Decode(_))));
    assert!(matches!(
        judge_answer(Method::Get, "/p", 200, "x", Some("bad")),
        Err(GhProxyError::Decode(e)) if e == "bad"
    ));
    assert_eq!(
        judge_answer(Method::Get, "/p", 200, " [1] ", None).unwrap(),
        unread("[1]")
    );
}

#[test]
fn failures_are_of_the_client_or_the_server() {
    for (status, failed) in [(200, false), (302, false), (399, false), (400, true), (599, true), (600, false)] {
        assert_eq!(status_failed(status), failed, "{status}");
    }
}

#[test]
fn tokens_are_redacted() {
    for (text, shown) in [
        ("ghp_A1b2", "[redacted]"),
        ("xgho_1 ghu_2,ghs_3;ghr_4", "x[redacted] [redacted],[redacted];[redacted]"),
        ("github_pat_a_B_1-rest", "[redacted]-rest"),
        ("ghp_ ghx_abc ghp", "ghp_ ghx_abc ghp"),
        ("ghp_aé", "[redacted]é"),
        ("", ""),
    ] {
        assert_eq!(redact(text), shown, "{text}");
    }
}

#[test]
fn failures_say_what_went_wrong() {
    for (error, text) in [
        (
            GhProxyError::ClientBuild("x".to_string()),
            "failed to build gh-proxy HTTP client: x",
        ),
        (
            GhProxyError::SerializeBody("x".to_string()),
            "failed to serialize request body: x",
        ),
        (
            GhProxyError::InvalidHeader("x".to_string()),
            "invalid header value: x",
        ),
        (
            GhProxyError::Request("x".to_string()),
            "gh-proxy request failed: x",
        ),
        (
            GhProxyError::Audit("x".to_string()),
            "failed to audit gh-proxy call: x",
        ),
        (
            GhProxyError::Decode("x".to_string()),
            "malformed gh-proxy JSON response: x",
        ),
    ] {
        assert_eq!(error.to_text("unused"), text);
    }
    let (_, result) = proxy().conclude(Method::Patch, "/p", "{}", 422, "no");
    assert_eq!(
        result.unwrap_err().to_text("422 Unprocessable Entity"),
        "gh-proxy PATCH /p failed with status 422 Unprocessable Entity: no"
    );
}
