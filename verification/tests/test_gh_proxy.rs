use monkey::gh_proxy::{
    API, CREDENTIAL_HELPER_CONFIG, GhProxyState, ProxyRequest, Upstream, call_gh, git_push,
    hmac_gate, hmac_gate_at, pass_on, proxy_response, push_reply, redact_token, reply_to_upstream,
};
use monkey::hmac_auth::hmac_sign_with_timestamp;
use monkey::host_tools::{GHProxy, Method};
use monkey::gh_writeback::RepoRef;
use monkey::json::{Doc, Json, JsonText, Part};
use monkey::sandbox::GitRun;

const KEY: &str = "test-hmac-key";
const PATH: &str = "/issues/acme/widget/1/comment";

fn convert(value: serde_json::Value) -> Json {
    match value {
        serde_json::Value::Null => Json::Null,
        serde_json::Value::Bool(b) => Json::Bool(b),
        serde_json::Value::Number(n) => match n.as_i64() {
            Some(i) => Json::Int(i),
            None => Json::Number(n.to_string()),
        },
        serde_json::Value::String(s) => Json::Text(s),
        serde_json::Value::Array(items) => Json::Array(items.into_iter().map(convert).collect()),
        serde_json::Value::Object(members) => Json::Object(
            members
                .into_iter()
                .map(|(name, value)| (name, convert(value)))
                .collect(),
        ),
    }
}

fn json(text: &str) -> Json {
    convert(serde_json::from_str(text).unwrap())
}

fn part(part: Part) -> Json {
    match part {
        Part::Value(value) => value,
        Part::Unread(text) => json(&text.text),
        Part::Listed(texts) => {
            Json::Array(texts.into_iter().map(|text| json(&text.text)).collect())
        }
    }
}

/// The JSON that a document is sent as.
fn read(doc: Doc) -> Json {
    match doc {
        Doc::Whole(whole) => part(whole),
        Doc::Members(members) => Json::Object(
            members
                .into_iter()
                .map(|(name, value)| (name, part(value)))
                .collect(),
        ),
    }
}

fn success() -> Json {
    Json::Object(vec![("ok".to_string(), Json::Bool(true))])
}

fn current_time() -> i64 {
    std::time::SystemTime::now()
        .duration_since(std::time::UNIX_EPOCH)
        .unwrap()
        .as_secs() as i64
}

#[test]
fn test_healthz_is_unauthenticated() {
    assert!(hmac_gate(KEY, "/healthz", Some(b""), None, None).is_none());
    assert!(hmac_gate(KEY, "/healthz", None, None, None).is_none());
}

#[test]
fn test_missing_signature_is_rejected() {
    let body = br#"{"body":"hi"}"#;
    let reply = hmac_gate(KEY, PATH, Some(body), None, None).unwrap();
    assert_eq!(reply.status, 401);
    assert_eq!(read(reply.body).text_at("detail"), Some("bad signature"));
}

#[test]
fn test_bad_signature_is_rejected() {
    let bad_sig = format!("sha256={}", "0".repeat(64));
    let now = current_time().to_string();
    let body = br#"{"body":"hi"}"#;
    let reply = hmac_gate(KEY, PATH, Some(body), Some(&bad_sig), Some(&now)).unwrap();
    assert_eq!(reply.status, 401);
}

#[test]
fn test_invalid_timestamp_is_rejected() {
    let old_ts = current_time() - 300;
    let body = br#"{"body":"hi"}"#;
    let signature = hmac_sign_with_timestamp(KEY, body, old_ts);
    let reply = hmac_gate(
        KEY,
        PATH,
        Some(body),
        Some(&signature),
        Some(&old_ts.to_string()),
    )
    .unwrap();
    assert_eq!(reply.status, 401);
}

#[test]
fn test_git_push_requires_repo() {
    for missing in ["worktree", "branch", "repo"] {
        let mut members = Vec::new();
        for (name, value) in [
            ("worktree", "/tmp/wt"),
            ("branch", "farm/x"),
            ("repo", "acme/widget"),
        ] {
            if name != missing {
                members.push((name.to_string(), Json::Text(value.to_string())));
            }
        }
        let reply = git_push(&Json::Object(members), "token").unwrap_err();
        assert_eq!(reply.status, 422, "missing {} should be 422", missing);
    }
}

#[test]
fn signed_requests_are_let_in() {
    let body = br#"{"body":"hi"}"#;
    let now = current_time();
    let signature = hmac_sign_with_timestamp(KEY, body, now);
    assert!(
        hmac_gate(
            KEY,
            PATH,
            Some(body),
            Some(&signature),
            Some(&now.to_string())
        )
        .is_none()
    );
    for (at, admitted) in [(1000, true), (1030, true), (970, true), (1031, false), (969, false)] {
        let signature = hmac_sign_with_timestamp(KEY, body, 1000);
        let reply = hmac_gate_at(KEY, PATH, Some(body), Some(&signature), Some("1000"), at);
        assert_eq!(reply.is_none(), admitted, "at {at}");
    }
    let reply = hmac_gate_at(KEY, PATH, None, Some(&signature), Some("1000"), 1000).unwrap();
    assert_eq!(reply.status, 400);
}

#[test]
fn client_and_proxy_agree_on_signatures() {
    let repo_ref = RepoRef {
        owner: "acme".into(),
        repo: "widget".into(),
        number: 1,
    };
    let proxy = GHProxy::new("http://proxy:8080//", KEY, &repo_ref);
    let body = r#"{"body":"hi"}"#;
    let call = proxy.call(PATH, body);
    assert_eq!(call.url, "http://proxy:8080/issues/acme/widget/1/comment");
    assert!(
        hmac_gate(
            KEY,
            PATH,
            Some(body.as_bytes()),
            Some(&call.signature),
            Some(&call.timestamp)
        )
        .is_none()
    );
    let call = proxy.sign_at(PATH, body, 1000);
    assert_eq!(call.timestamp, "1000");
    assert!(
        hmac_gate_at(
            KEY,
            PATH,
            Some(body.as_bytes()),
            Some(&call.signature),
            Some(&call.timestamp),
            1000
        )
        .is_none()
    );
}

#[test]
fn empty_no_content_response_is_reported_as_success() {
    let reply = proxy_response(204, String::new());
    assert_eq!(reply.status, 200);
    assert_eq!(read(reply.body), success());
}

#[test]
fn empty_ok_response_is_reported_as_success() {
    let reply = proxy_response(200, "  \n".to_string());
    assert_eq!(reply.status, 200);
    assert_eq!(read(reply.body), success());
}

#[test]
fn non_empty_success_response_is_forwarded_with_its_status() {
    let payload = r#"{"id":1,"number":7}"#;
    let reply = proxy_response(201, payload.to_string());
    assert_eq!(reply.status, 201);
    assert_eq!(
        reply.body,
        Doc::Whole(Part::Unread(JsonText {
            text: payload.to_string()
        }))
    );
    let body = read(reply.body);
    assert_eq!(body.get("id"), Some(&Json::Int(1)));
    assert_eq!(body.get("number"), Some(&Json::Int(7)));
}

#[test]
fn upstream_error_keeps_status_and_details() {
    let payload = r#"{"message":"Not Found"}"#;
    let reply = proxy_response(404, payload.to_string());
    assert_eq!(reply.status, 404);
    assert_eq!(
        read(reply.body),
        Json::Object(vec![
            ("error".to_string(), Json::Bool(true)),
            ("status".to_string(), Json::Int(404)),
            ("body".to_string(), json(payload))
        ])
    );
}

#[test]
fn malformed_success_response_is_a_bad_gateway() {
    let reply = proxy_response(200, "not json".to_string());
    assert_eq!(reply.status, 502);
    let body = read(reply.body);
    assert_eq!(body.get("error"), Some(&Json::Bool(true)));
    assert_eq!(body.get("status"), Some(&Json::Int(200)));
    let detail = body.text_at("detail").unwrap();
    assert!(
        detail.starts_with("malformed GitHub JSON response: expected"),
        "{detail}"
    );
}

#[test]
fn malformed_failure_keeps_its_status() {
    let reply = pass_on(503, "<html>".to_string(), Some("expected value"));
    assert_eq!(reply.status, 503);
    assert_eq!(
        read(reply.body).text_at("detail"),
        Some("malformed GitHub JSON response: expected value")
    );
    let reply = pass_on(599, String::new(), None);
    assert_eq!(reply.status, 599);
    assert_eq!(read(reply.body).get("body"), Some(&success()));
    assert_eq!(pass_on(204, "{}".to_string(), None).status, 200);
}

#[test]
fn faults_on_the_way_to_github() {
    let reply = reply_to_upstream(Upstream::NotSent("refused".to_string()));
    assert_eq!(reply.status, 502);
    assert_eq!(
        read(reply.body).text_at("detail"),
        Some("upstream error: refused")
    );
    let reply = reply_to_upstream(Upstream::Unreadable {
        status: 500,
        error: "cut".to_string(),
    });
    assert_eq!(reply.status, 500);
    assert_eq!(
        read(reply.body).text_at("detail"),
        Some("failed to read GitHub response: cut")
    );
    let reply = reply_to_upstream(Upstream::Answered {
        status: 200,
        body: "[]".to_string(),
    });
    assert_eq!(read(reply.body), Json::Array(Vec::new()));
}

#[test]
fn requests_reach_their_place_on_github() {
    let owner = "acme".to_string();
    let repo = "widget".to_string();
    let place = |request: ProxyRequest| request.upstream();
    assert_eq!(
        place(ProxyRequest::AddIssueComment {
            owner: owner.clone(),
            repo: repo.clone(),
            number: 5
        }),
        (
            Method::Post,
            "/repos/acme/widget/issues/5/comments".to_string()
        )
    );
    assert_eq!(
        place(ProxyRequest::AddLabels {
            owner: owner.clone(),
            repo: repo.clone(),
            number: 5
        })
        .1,
        "/repos/acme/widget/issues/5/labels"
    );
    assert_eq!(
        place(ProxyRequest::UpdateIssue {
            owner: owner.clone(),
            repo: repo.clone(),
            number: 5
        }),
        (Method::Patch, "/repos/acme/widget/issues/5".to_string())
    );
    assert_eq!(
        place(ProxyRequest::ListIssueReactions {
            owner: owner.clone(),
            repo: repo.clone(),
            number: 5
        }),
        (
            Method::Get,
            "/repos/acme/widget/issues/5/reactions".to_string()
        )
    );
    assert_eq!(
        place(ProxyRequest::OpenPullRequest {
            owner: owner.clone(),
            repo: repo.clone()
        }),
        (Method::Post, "/repos/acme/widget/pulls".to_string())
    );
    assert_eq!(
        place(ProxyRequest::ListPullRequests {
            owner: owner.clone(),
            repo: repo.clone(),
            query: Some("state=open".to_string())
        }),
        (
            Method::Get,
            "/repos/acme/widget/pulls?state=open".to_string()
        )
    );
    assert_eq!(
        place(ProxyRequest::ListPullRequests {
            owner: owner.clone(),
            repo: repo.clone(),
            query: None
        })
        .1,
        "/repos/acme/widget/pulls"
    );
    assert_eq!(
        place(ProxyRequest::UpdatePullRequest {
            owner: owner.clone(),
            repo: repo.clone(),
            number: -5
        }),
        (Method::Patch, "/repos/acme/widget/pulls/-5".to_string())
    );
    assert_eq!(
        place(ProxyRequest::AddPrReviewComment {
            owner: owner.clone(),
            repo: repo.clone(),
            number: 5
        }),
        (
            Method::Post,
            "/repos/acme/widget/pulls/5/comments".to_string()
        )
    );
    assert_eq!(
        place(ProxyRequest::CreateRef { owner, repo }),
        (Method::Post, "/repos/acme/widget/git/refs".to_string())
    );
}

#[test]
fn token_goes_into_the_header() {
    let request = call_gh("t0ken", "/x");
    assert_eq!(request.url, format!("{API}/x"));
    assert!(
        request
            .headers
            .contains(&("authorization".to_string(), "Bearer t0ken".to_string()))
    );
    assert_eq!(request.headers.len(), 4);
}

#[test]
fn push_keeps_the_token_out_of_the_arguments() {
    let body = json(r#"{"worktree":"/wt","branch":"farm/x","repo":"acme/widget"}"#);
    let push = git_push(&body, "t0ken").unwrap();
    assert_eq!(
        push.args,
        vec![
            "-C",
            "/wt",
            "-c",
            "credential.helper=",
            "-c",
            CREDENTIAL_HELPER_CONFIG,
            "push",
            "-f",
            "https://github.com/acme/widget.git",
            "HEAD:farm/x"
        ]
    );
    assert!(!push.args.iter().any(|arg| arg.contains("t0ken")));
    assert_eq!(
        push.env,
        vec![
            ("GIT_TOKEN".to_string(), "t0ken".to_string()),
            ("GIT_TERMINAL_PROMPT".to_string(), "0".to_string())
        ]
    );
}

#[test]
fn answers_to_pushes() {
    let ended = |success: bool, stderr: &str| GitRun::Ended {
        success,
        stdout: String::new(),
        stderr: stderr.to_string(),
    };
    let reply = push_reply(&ended(true, ""), "t0ken");
    assert_eq!(reply.status, 200);
    assert_eq!(read(reply.body), success());
    let reply = push_reply(&ended(false, "bad t0ken: t0ken"), "t0ken");
    assert_eq!(reply.status, 502);
    let body = read(reply.body);
    assert_eq!(body.text_at("detail"), Some("git push failed"));
    assert_eq!(
        body.text_at("stderr"),
        Some("bad [redacted]: [redacted]")
    );
    let reply = push_reply(&GitRun::NotStarted("no git".to_string()), "t0ken");
    assert_eq!(reply.status, 502);
    assert_eq!(read(reply.body).text_at("error"), Some("no git"));
    assert_eq!(redact_token("aaa", "aa"), "[redacted]a");
    let old = "0123456789abcdef0123456789abcdef01234567";
    let shown = redact_token(&format!("x{old}{old} {old}y"), old);
    assert_eq!(shown, "x[redacted][redacted] [redacted]y");
    assert_eq!(redact_token(&shown, old), shown);
    let state = GhProxyState::new("t".to_string(), "k".to_string());
    assert_eq!((state.github_token, state.hmac_key), ("t".into(), "k".into()));
}
