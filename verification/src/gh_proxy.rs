//! The service that holds the GitHub token: which requests it lets in, what it
//! asks of GitHub, and what it answers.

use vstd::prelude::*;
use vstd::string::*;

use crate::decimal;
use crate::foreign;
use crate::hmac_auth;
use crate::host_tools;
use crate::host_tools::Method;
use crate::json;
use crate::json::{Doc, Json, JsonText, Part};
use crate::sandbox::GitRun;
use crate::text;

verus! {

pub const API: &'static str = "https://api.github.com";

pub const CREDENTIAL_HELPER_CONFIG: &'static str =
    "credential.helper=!f() { echo username=x-access-token; echo password=$GIT_TOKEN; }; f";

/// An answer: its status and its body.
#[derive(Debug)]
pub struct Reply {
    pub status: u16,
    pub body: Doc,
}

/// What an answer stands for.
pub struct ReplyModel {
    pub status: int,
    pub body: json::DocModel,
}

impl View for Reply {
    type V = ReplyModel;

    open spec fn view(&self) -> ReplyModel {
        ReplyModel { status: self.status as int, body: self.body@ }
    }
}

pub open spec fn reply_view(r: Option<Reply>) -> Option<ReplyModel> {
    match r {
        Some(r) => Some(r@),
        None => None,
    }
}

/// An answer that holds one text under `detail`.
pub open spec fn detail_reply(status: int, detail: Seq<char>) -> ReplyModel {
    ReplyModel { status, body: json::document(host_tools::one_text("detail"@, detail)) }
}

/// An answer that holds one text under `detail`.
pub fn reply_with_detail(status: u16, detail: &str) -> (r: Reply)
    ensures
        r@ == detail_reply(status as int, detail@),
{
    let members = vec![Json::text_member("detail", detail)];
    assert(json::members_of(members@) =~= host_tools::one_text("detail"@, detail@)->Object_0);
    Reply { status, body: Doc::value(Json::object(members)) }
}

// ---------------------------------------------------------------------------
// Admission
// ---------------------------------------------------------------------------

/// Whether a request is turned away, and with which answer. The check of the
/// service's health needs no signature; any other request needs one that lies
/// within thirty seconds of the clock.
pub open spec fn gate_reply(
    key: Seq<char>,
    path: Seq<char>,
    body: Option<Seq<u8>>,
    signature: Option<Seq<char>>,
    timestamp: Option<Seq<char>>,
    now: int,
) -> Option<ReplyModel> {
    if path == "/healthz"@ {
        None
    } else {
        match body {
            None => Some(detail_reply(400, "failed to read body"@)),
            Some(b) => if hmac_auth::internal_verdict(key, b, signature, timestamp, 30, now) is Ok {
                None
            } else {
                Some(detail_reply(401, "bad signature"@))
            },
        }
    }
}

pub open spec fn bytes_view(body: Option<&[u8]>) -> Option<Seq<u8>> {
    match body {
        Some(b) => Some(b@),
        None => None,
    }
}

/// Whether a request that arrives at time `now` is turned away, and with which
/// answer. There is no body where it could not be read.
pub fn hmac_gate_at(
    key: &str,
    path: &str,
    body: Option<&[u8]>,
    signature: Option<&str>,
    timestamp: Option<&str>,
    now: i64,
) -> (r: Option<Reply>)
    ensures
        reply_view(r) == gate_reply(
            key@,
            path@,
            bytes_view(body),
            hmac_auth::opt_text(signature),
            hmac_auth::opt_text(timestamp),
            now as int,
        ),
{
    if text::same_text(path, "/healthz") {
        return None;
    }
    let bytes = match body {
        Some(b) => b,
        None => return Some(reply_with_detail(400, "failed to read body")),
    };
    match hmac_auth::verify_internal_signature_at(key, bytes, signature, timestamp, 30, now) {
        Ok(()) => None,
        Err(_) => Some(reply_with_detail(401, "bad signature")),
    }
}

/// Whether a request that arrives now is turned away, and with which answer.
pub fn hmac_gate(
    key: &str,
    path: &str,
    body: Option<&[u8]>,
    signature: Option<&str>,
    timestamp: Option<&str>,
) -> (r: Option<Reply>)
    ensures
        exists|now: i64|
            now >= 0 && reply_view(r) == #[trigger] gate_reply(
                key@,
                path@,
                bytes_view(body),
                hmac_auth::opt_text(signature),
                hmac_auth::opt_text(timestamp),
                now as int,
            ),
{
    let now: i64 = foreign::unix_seconds();
    hmac_gate_at(key, path, body, signature, timestamp, now)
}

/// A request without a signature, without a time, or with a time outside the
/// window, is turned away unless it asks for the health of the service; so is
/// one whose signature is not the digest of its time and body.
pub proof fn law_gate_lets_in_signed_requests_only(
    key: Seq<char>,
    path: Seq<char>,
    body: Option<Seq<u8>>,
    signature: Option<Seq<char>>,
    timestamp: Option<Seq<char>>,
    now: int,
)
    requires
        path != "/healthz"@,
        gate_reply(key, path, body, signature, timestamp, now) is None,
    ensures
        body is Some,
        signature is Some,
        timestamp is Some,
        ({
            let ts = decimal::signed_value(timestamp->0);
            &&& ts is Some
            &&& hmac_auth::distance(now, ts->0) <= 30
            &&& hmac_auth::spells(
                hmac_auth::header_hex(signature->0),
                hmac_auth::digest(key, hmac_auth::stamped(ts->0, body->0)),
            )
        }),
{
}

/// A request whose signature is accepted within thirty seconds of the clock is
/// let in, whatever it asks for.
pub proof fn law_gate_lets_in_signed_requests(
    key: Seq<char>,
    path: Seq<char>,
    body: Seq<u8>,
    signature: Option<Seq<char>>,
    timestamp: Option<Seq<char>>,
    now: int,
)
    requires
        hmac_auth::internal_verdict(key, body, signature, timestamp, 30, now) is Ok,
    ensures
        gate_reply(key, path, Some(body), signature, timestamp, now) is None,
{
}

// ---------------------------------------------------------------------------
// Requests to GitHub
// ---------------------------------------------------------------------------

/// A request that the service passes on to GitHub.
#[derive(Debug, Clone)]
pub enum ProxyRequest {
    AddIssueComment { owner: String, repo: String, number: i64 },
    AddLabels { owner: String, repo: String, number: i64 },
    UpdateIssue { owner: String, repo: String, number: i64 },
    ListIssueReactions { owner: String, repo: String, number: i64 },
    OpenPullRequest { owner: String, repo: String },
    ListPullRequests { owner: String, repo: String, query: Option<String> },
    UpdatePullRequest { owner: String, repo: String, number: i64 },
    AddPrReviewComment { owner: String, repo: String, number: i64 },
    CreateRef { owner: String, repo: String },
}

/// A part of a repository on GitHub.
pub open spec fn repo_path(owner: Seq<char>, repo: Seq<char>, part: Seq<char>) -> Seq<char> {
    "/repos/"@ + owner + "/"@ + repo + part
}

/// A numbered part of a repository on GitHub.
pub open spec fn numbered_path(
    owner: Seq<char>,
    repo: Seq<char>,
    part: Seq<char>,
    number: int,
    rest: Seq<char>,
) -> Seq<char> {
    repo_path(owner, repo, part) + decimal::decimal(number) + rest
}

/// The method and the path of a request on GitHub.
pub open spec fn upstream_of(request: ProxyRequest) -> (Method, Seq<char>) {
    match request {
        ProxyRequest::AddIssueComment { owner, repo, number } => (
            Method::Post,
            numbered_path(owner@, repo@, "/issues/"@, number as int, "/comments"@),
        ),
        ProxyRequest::AddLabels { owner, repo, number } => (
            Method::Post,
            numbered_path(owner@, repo@, "/issues/"@, number as int, "/labels"@),
        ),
        ProxyRequest::UpdateIssue { owner, repo, number } => (
            Method::Patch,
            numbered_path(owner@, repo@, "/issues/"@, number as int, ""@),
        ),
        ProxyRequest::ListIssueReactions { owner, repo, number } => (
            Method::Get,
            numbered_path(owner@, repo@, "/issues/"@, number as int, "/reactions"@),
        ),
        ProxyRequest::OpenPullRequest { owner, repo } => (
            Method::Post,
            repo_path(owner@, repo@, "/pulls"@),
        ),
        ProxyRequest::ListPullRequests { owner, repo, query } => (
            Method::Get,
            repo_path(owner@, repo@, "/pulls"@) + match query {
                Some(q) => "?"@ + q@,
                None => ""@,
            },
        ),
        ProxyRequest::UpdatePullRequest { owner, repo, number } => (
            Method::Patch,
            numbered_path(owner@, repo@, "/pulls/"@, number as int, ""@),
        ),
        ProxyRequest::AddPrReviewComment { owner, repo, number } => (
            Method::Post,
            numbered_path(owner@, repo@, "/pulls/"@, number as int, "/comments"@),
        ),
        ProxyRequest::CreateRef { owner, repo } => (
            Method::Post,
            repo_path(owner@, repo@, "/git/refs"@),
        ),
    }
}

fn make_repo_path(owner: &str, repo: &str, part: &str) -> (r: String)
    ensures
        r@ == repo_path(owner@, repo@, part@),
{
    let mut r = "/repos/".to_owned();
    r.append(owner);
    r.append("/");
    r.append(repo);
    r.append(part);
    r
}

fn make_numbered_path(owner: &str, repo: &str, part: &str, number: i64, rest: &str) -> (r: String)
    ensures
        r@ == numbered_path(owner@, repo@, part@, number as int, rest@),
{
    let mut r = make_repo_path(owner, repo, part);
    r.append(decimal::decimal_i64(number).as_str());
    r.append(rest);
    r
}

impl ProxyRequest {
    /// The method and the path of the request on GitHub.
    pub fn upstream(&self) -> (r: (Method, String))
        ensures
            (r.0, r.1@) == upstream_of(*self),
    {
        match self {
            ProxyRequest::AddIssueComment { owner, repo, number } => (
                Method::Post,
                make_numbered_path(owner.as_str(), repo.as_str(), "/issues/", *number, "/comments"),
            ),
            ProxyRequest::AddLabels { owner, repo, number } => (
                Method::Post,
                make_numbered_path(owner.as_str(), repo.as_str(), "/issues/", *number, "/labels"),
            ),
            ProxyRequest::UpdateIssue { owner, repo, number } => (
                Method::Patch,
                make_numbered_path(owner.as_str(), repo.as_str(), "/issues/", *number, ""),
            ),
            ProxyRequest::ListIssueReactions { owner, repo, number } => (
                Method::Get,
                make_numbered_path(
                    owner.as_str(),
                    repo.as_str(),
                    "/issues/",
                    *number,
                    "/reactions",
                ),
            ),
            ProxyRequest::OpenPullRequest { owner, repo } => (
                Method::Post,
                make_repo_path(owner.as_str(), repo.as_str(), "/pulls"),
            ),
            ProxyRequest::ListPullRequests { owner, repo, query } => {
                let suffix = match query {
                    Some(q) => "?".to_owned().concat(q.as_str()),
                    None => "".to_owned(),
                };
                let path = make_repo_path(owner.as_str(), repo.as_str(), "/pulls");
                (Method::Get, path.concat(suffix.as_str()))
            },
            ProxyRequest::UpdatePullRequest { owner, repo, number } => (
                Method::Patch,
                make_numbered_path(owner.as_str(), repo.as_str(), "/pulls/", *number, ""),
            ),
            ProxyRequest::AddPrReviewComment { owner, repo, number } => (
                Method::Post,
                make_numbered_path(owner.as_str(), repo.as_str(), "/pulls/", *number, "/comments"),
            ),
            ProxyRequest::CreateRef { owner, repo } => (
                Method::Post,
                make_repo_path(owner.as_str(), repo.as_str(), "/git/refs"),
            ),
        }
    }
}

/// A request to GitHub.
#[derive(Debug, Clone)]
pub struct UpstreamRequest {
    pub url: String,
    pub headers: Vec<(String, String)>,
}

pub open spec fn pairs_view(v: Seq<(String, String)>) -> Seq<(Seq<char>, Seq<char>)> {
    v.map_values(|p: (String, String)| (p.0@, p.1@))
}

/// The headers of a request to GitHub.
pub open spec fn upstream_headers(token: Seq<char>) -> Seq<(Seq<char>, Seq<char>)> {
    seq![
        ("authorization"@, "Bearer "@ + token),
        ("accept"@, "application/vnd.github+json"@),
        ("x-github-api-version"@, "2022-11-28"@),
        ("user-agent"@, "monkey-gh-proxy"@),
    ]
}

/// The request to GitHub for a path.
pub fn call_gh(token: &str, path: &str) -> (r: UpstreamRequest)
    ensures
        r.url@ == API@ + path@,
        pairs_view(r.headers@) == upstream_headers(token@),
{
    let headers = vec![
        ("authorization".to_owned(), "Bearer ".to_owned().concat(token)),
        ("accept".to_owned(), "application/vnd.github+json".to_owned()),
        ("x-github-api-version".to_owned(), "2022-11-28".to_owned()),
        ("user-agent".to_owned(), "monkey-gh-proxy".to_owned()),
    ];
    assert(pairs_view(headers@) =~= upstream_headers(token@));
    UpstreamRequest { url: API.to_owned().concat(path), headers }
}

/// How a request to GitHub ended.
#[derive(Debug, Clone)]
pub enum Upstream {
    /// It could not be sent.
    NotSent(String),
    /// The answer could not be read.
    Unreadable { status: u16, error: String },
    /// GitHub answered.
    Answered { status: u16, body: String },
}

/// The answer to an answer of GitHub that could not be used. A failure of
/// GitHub keeps its status; any other fault lies between the two.
pub open spec fn fault_reply(status: int, detail: Seq<char>) -> ReplyModel {
    ReplyModel {
        status: if host_tools::is_failure(status) {
            status
        } else {
            502
        },
        body: json::document(fault_tree(status, detail)),
    }
}

/// What is told of an answer of GitHub that could not be used.
pub open spec fn fault_tree(status: int, detail: Seq<char>) -> json::Tree {
    json::Tree::Object(
        seq![
            ("error"@, json::Tree::Bool(true)),
            ("status"@, json::Tree::Int(status)),
            ("detail"@, json::Tree::Text(detail)),
        ],
    )
}

/// The answer to an answer of GitHub that could not be used.
pub fn github_error_response(status: u16, detail: &str) -> (r: Reply)
    ensures
        r@ == fault_reply(status as int, detail@),
{
    let members = vec![
        ("error".to_owned(), Json::Bool(true)),
        ("status".to_owned(), Json::Int(status as i64)),
        Json::text_member("detail", detail),
    ];
    assert(json::members_of(members@) =~= fault_tree(status as int, detail@)->Object_0);
    let response_status: u16 = if host_tools::status_failed(status) {
        status
    } else {
        502
    };
    Reply { status: response_status, body: Doc::value(Json::object(members)) }
}

/// The answer to an answer of GitHub: an empty body becomes the value that
/// stands for success, any other body is passed on as it is, and a failure
/// keeps its status and its body. `error` says what is wrong with the body as
/// a JSON value.
pub open spec fn passed_on(status: int, body: Seq<char>, error: Option<Seq<char>>) -> ReplyModel {
    let blank = text::trimmed(body).len() == 0;
    let value = if blank {
        json::PartModel::Value(host_tools::success_tree())
    } else {
        json::PartModel::Unread(body)
    };
    if !blank && error is Some {
        fault_reply(status, "malformed GitHub JSON response: "@ + error->0)
    } else if host_tools::is_failure(status) {
        ReplyModel {
            status,
            body: json::DocModel::Members(
                seq![
                    ("error"@, json::PartModel::Value(json::Tree::Bool(true))),
                    ("status"@, json::PartModel::Value(json::Tree::Int(status))),
                    ("body"@, value),
                ],
            ),
        }
    } else if status == 204 {
        ReplyModel { status: 200, body: json::DocModel::Whole(value) }
    } else {
        ReplyModel { status, body: json::DocModel::Whole(value) }
    }
}

/// The answer to an answer of GitHub, `error` saying what is wrong with its
/// body as a JSON value.
pub fn pass_on(status: u16, body: String, error: Option<&str>) -> (r: Reply)
    ensures
        r@ == passed_on(status as int, body@, json::text_of(error)),
{
    let value = if text::trim(body.as_str()).is_empty() {
        Part::Value(host_tools::empty_success_value())
    } else {
        match error {
            Some(e) => {
                let detail = "malformed GitHub JSON response: ".to_owned().concat(e);
                return github_error_response(status, detail.as_str());
            },
            None => Part::Unread(JsonText { text: body }),
        }
    };
    if host_tools::status_failed(status) {
        let members = vec![
            ("error".to_owned(), Part::Value(Json::Bool(true))),
            ("status".to_owned(), Part::Value(Json::Int(status as i64))),
            ("body".to_owned(), value),
        ];
        assert(json::parts_of(members@) =~= seq![
            ("error"@, json::PartModel::Value(json::Tree::Bool(true))),
            ("status"@, json::PartModel::Value(json::Tree::Int(status as int))),
            ("body"@, value@),
        ]);
        Reply { status, body: Doc::Members(members) }
    } else if status == 204 {
        Reply { status: 200, body: Doc::Whole(value) }
    } else {
        Reply { status, body: Doc::Whole(value) }
    }
}

/// The answer to an answer of GitHub.
pub fn proxy_response(status: u16, body: String) -> (r: Reply)
    ensures
        r@ == passed_on(status as int, body@, foreign::json_error_of(body@)),
{
    match foreign::json_error(body.as_str()) {
        Some(e) => pass_on(status, body, Some(e.as_str())),
        None => pass_on(status, body, None),
    }
}

/// The answer to whatever became of a request to GitHub.
pub open spec fn upstream_reply(upstream: Upstream) -> ReplyModel {
    match upstream {
        Upstream::NotSent(e) => detail_reply(502, "upstream error: "@ + e@),
        Upstream::Unreadable { status, error } => fault_reply(
            status as int,
            "failed to read GitHub response: "@ + error@,
        ),
        Upstream::Answered { status, body } => passed_on(
            status as int,
            body@,
            foreign::json_error_of(body@),
        ),
    }
}

/// The answer to whatever became of a request to GitHub.
pub fn reply_to_upstream(upstream: Upstream) -> (r: Reply)
    ensures
        r@ == upstream_reply(upstream),
{
    match upstream {
        Upstream::NotSent(e) => reply_with_detail(
            502,
            "upstream error: ".to_owned().concat(e.as_str()).as_str(),
        ),
        Upstream::Unreadable { status, error } => github_error_response(
            status,
            "failed to read GitHub response: ".to_owned().concat(error.as_str()).as_str(),
        ),
        Upstream::Answered { status, body } => proxy_response(status, body),
    }
}

/// A failure of GitHub keeps its status, whatever its body; a success keeps
/// its status too, but for one without content, which becomes a plain success,
/// and one whose body is not JSON, which becomes the fault of the gateway.
pub proof fn law_status_is_kept(status: int, body: Seq<char>, error: Option<Seq<char>>)
    ensures
        host_tools::is_failure(status) ==> passed_on(status, body, error).status == status,
        !host_tools::is_failure(status) && (error is None || text::trimmed(body).len() == 0)
            ==> passed_on(status, body, error).status == if status == 204 {
            200
        } else {
            status
        },
        !host_tools::is_failure(status) && error is Some && text::trimmed(body).len() > 0
            ==> passed_on(status, body, error).status == 502,
{
}

// ---------------------------------------------------------------------------
// Pushing
// ---------------------------------------------------------------------------

/// A push that is to be made.
#[derive(Debug, Clone)]
pub struct GitPush {
    pub args: Vec<String>,
    pub env: Vec<(String, String)>,
}

/// The arguments of git for a push. The token is not among them: git asks the
/// helper for it, which reads it from the environment.
pub open spec fn push_arguments(worktree: Seq<char>, branch: Seq<char>, repo: Seq<char>) -> Seq<
    Seq<char>,
> {
    seq![
        "-C"@,
        worktree,
        "-c"@,
        "credential.helper="@,
        "-c"@,
        CREDENTIAL_HELPER_CONFIG@,
        "push"@,
        "-f"@,
        "https://github.com/"@ + repo + ".git"@,
        "HEAD:"@ + branch,
    ]
}

/// The variables of git for a push.
pub open spec fn push_variables(token: Seq<char>) -> Seq<(Seq<char>, Seq<char>)> {
    seq![("GIT_TOKEN"@, token), ("GIT_TERMINAL_PROMPT"@, "0"@)]
}

/// Plans a push, or turns the request away where it does not name the
/// checkout, the branch and the repository.
pub fn git_push(body: &Json, token: &str) -> (r: Result<GitPush, Reply>)
    ensures
        match (
            body@.text_at("worktree"@),
            body@.text_at("branch"@),
            body@.text_at("repo"@),
        ) {
            (Some(worktree), Some(branch), Some(repo)) => r matches Ok(p) && {
                &&& text::texts(p.args@) == push_arguments(worktree, branch, repo)
                &&& pairs_view(p.env@) == push_variables(token@)
            },
            _ => r matches Err(e) && e@ == detail_reply(
                422,
                "worktree, branch, and repo required"@,
            ),
        },
{
    match (body.text_at("worktree"), body.text_at("branch"), body.text_at("repo")) {
        (Some(worktree), Some(branch), Some(repo)) => {
            let mut remote = "https://github.com/".to_owned();
            remote.append(repo);
            remote.append(".git");
            let args = vec![
                "-C".to_owned(),
                worktree.to_owned(),
                "-c".to_owned(),
                "credential.helper=".to_owned(),
                "-c".to_owned(),
                CREDENTIAL_HELPER_CONFIG.to_owned(),
                "push".to_owned(),
                "-f".to_owned(),
                remote,
                "HEAD:".to_owned().concat(branch),
            ];
            assert(text::texts(args@) =~= push_arguments(worktree@, branch@, repo@));
            let env = vec![
                ("GIT_TOKEN".to_owned(), token.to_owned()),
                ("GIT_TERMINAL_PROMPT".to_owned(), "0".to_owned()),
            ];
            assert(pairs_view(env@) =~= push_variables(token@));
            Ok(GitPush { args, env })
        },
        _ => Err(reply_with_detail(422, "worktree, branch, and repo required")),
    }
}

/// A text without the token.
pub fn redact_token(s: &str, token: &str) -> (r: String)
    ensures
        r@ == text::replaced(s@, token@, "[redacted]"@),
{
    text::replace(s, token, "[redacted]")
}

/// An object of two texts.
pub open spec fn two_text_tree(
    first: Seq<char>,
    a: Seq<char>,
    second: Seq<char>,
    b: Seq<char>,
) -> json::Tree {
    json::Tree::Object(seq![(first, json::Tree::Text(a)), (second, json::Tree::Text(b))])
}

/// The answer to a push; what git wrote is handed on without the token.
pub open spec fn push_reply_of(run: GitRun, token: Seq<char>) -> ReplyModel {
    match run {
        GitRun::NotStarted(e) => ReplyModel {
            status: 502,
            body: json::document(
                two_text_tree("detail"@, "failed to spawn git"@, "error"@, e@),
            ),
        },
        GitRun::Ended { success, stderr, .. } => if success {
            ReplyModel {
                status: 200,
                body: json::document(host_tools::success_tree()),
            }
        } else {
            ReplyModel {
                status: 502,
                body: json::document(
                    two_text_tree(
                        "detail"@,
                        "git push failed"@,
                        "stderr"@,
                        text::replaced(stderr@, token, "[redacted]"@),
                    ),
                ),
            }
        },
    }
}

fn two_texts(first: &str, a: &str, second: &str, b: &str) -> (r: Doc)
    ensures
        r@ == json::document(two_text_tree(first@, a@, second@, b@)),
{
    let members = vec![Json::text_member(first, a), Json::text_member(second, b)];
    assert(json::members_of(members@) =~= two_text_tree(first@, a@, second@, b@)->Object_0);
    Doc::value(Json::object(members))
}

/// The answer to a push.
pub fn push_reply(run: &GitRun, token: &str) -> (r: Reply)
    ensures
        r@ == push_reply_of(*run, token@),
{
    match run {
        GitRun::NotStarted(e) => Reply {
            status: 502,
            body: two_texts("detail", "failed to spawn git", "error", e.as_str()),
        },
        GitRun::Ended { success, stderr, .. } => if *success {
            Reply { status: 200, body: Doc::value(host_tools::empty_success_value()) }
        } else {
            let shown = redact_token(stderr.as_str(), token);
            Reply {
                status: 502,
                body: two_texts("detail", "git push failed", "stderr", shown.as_str()),
            }
        },
    }
}

/// What git wrote is handed on without the token, unless the token can share
/// characters with the mark that takes its place.
pub proof fn law_token_is_not_handed_on(written: Seq<char>, token: Seq<char>)
    requires
        token.len() > 0,
        text::stand_apart(token, "[redacted]"@),
    ensures
        !text::has_text(text::replaced(written, token, "[redacted]"@), token),
{
    reveal_strlit("[redacted]");
    text::law_replaced_text_is_gone(written, token, "[redacted]"@);
}

/// A token without brackets that does not stand in the word between those of
/// the mark cannot share characters with it; the tokens of GitHub, old ones in
/// hexadecimal among them, are longer than that word and of this kind.
pub proof fn law_github_tokens_stand_apart(token: Seq<char>)
    requires
        token.len() > 0,
        !token.contains('['),
        !token.contains(']'),
        !text::has_text("redacted"@, token),
    ensures
        text::stand_apart(token, "[redacted]"@),
{
    reveal_strlit("[redacted]");
    reveal_strlit("redacted");
    let mark = "[redacted]"@;
    assert(mark.subrange(1, 9) =~= "redacted"@);
    assert forall|d: int| -token.len() < d < mark.len() implies !#[trigger] text::agree_at(
        token,
        mark,
        d,
    ) by {
        if text::agree_at(token, mark, d) {
            if d <= 0 {
                assert(token[-d] == mark[0]);
            } else if d + token.len() > 9 {
                assert(token[9 - d] == mark[9]);
            } else {
                assert("redacted"@.subrange(d - 1, d - 1 + token.len()) =~= token) by {
                    assert forall|k: int| 0 <= k < token.len() implies token[k] == mark[d + k] by {
                    }
                }
                assert(text::occurs_at("redacted"@, token, d - 1));
            }
        }
    }
}

/// What the service holds while it runs.
#[derive(Debug, Clone)]
pub struct GhProxyState {
    pub github_token: String,
    pub hmac_key: String,
}

impl GhProxyState {
    pub fn new(github_token: String, hmac_key: String) -> (r: Self)
        ensures
            r.github_token@ == github_token@,
            r.hmac_key@ == hmac_key@,
    {
        GhProxyState { github_token, hmac_key }
    }
}

/// A request is let in where it asks for the health of the service, or where its
/// body can be read and its signature is accepted within thirty seconds of the
/// clock; else it is told what is wrong.
pub proof fn law_requests_that_are_let_in(
    key: Seq<char>,
    path: Seq<char>,
    body: Option<Seq<u8>>,
    signature: Option<Seq<char>>,
    timestamp: Option<Seq<char>>,
    now: int,
)
    ensures
        ({
            let r = gate_reply(key, path, body, signature, timestamp, now);
            let signed = body is Some && hmac_auth::internal_verdict(
                key,
                body->0,
                signature,
                timestamp,
                30,
                now,
            ) is Ok;
            &&& r is None <==> path == "/healthz"@ || signed
            &&& path != "/healthz"@ && body is None ==> r == Some(
                detail_reply(400, "failed to read body"@),
            )
            &&& path != "/healthz"@ && body is Some && !signed ==> r == Some(
                detail_reply(401, "bad signature"@),
            )
        }),
{
}

/// An answer with a detail carries its status, and the detail under that name.
pub proof fn law_details(status: int, detail: Seq<char>)
    ensures
        detail_reply(status, detail).status == status,
        detail_reply(status, detail).body == json::DocModel::Whole(
            json::PartModel::Value(
                json::Tree::Object(seq![("detail"@, json::Tree::Text(detail))]),
            ),
        ),
{
}

/// Where each request goes on GitHub: to the repository of its owner, to the
/// issue or the pull request of its number, and with the method that makes or
/// changes or reads it.
pub proof fn law_places_on_github(request: ProxyRequest)
    ensures
        ({
            let (method, path) = upstream_of(request);
            let issue = |o: String, p: String, n: i64|
                "/repos/"@ + o@ + "/"@ + p@ + "/issues/"@ + decimal::decimal(n as int);
            let pull = |o: String, p: String, n: i64|
                "/repos/"@ + o@ + "/"@ + p@ + "/pulls/"@ + decimal::decimal(n as int);
            match request {
                ProxyRequest::AddIssueComment { owner, repo, number } => method == Method::Post
                    && path == issue(owner, repo, number) + "/comments"@,
                ProxyRequest::AddLabels { owner, repo, number } => method == Method::Post && path
                    == issue(owner, repo, number) + "/labels"@,
                ProxyRequest::UpdateIssue { owner, repo, number } => method == Method::Patch && path
                    == issue(owner, repo, number),
                ProxyRequest::ListIssueReactions { owner, repo, number } => method == Method::Get
                    && path == issue(owner, repo, number) + "/reactions"@,
                ProxyRequest::OpenPullRequest { owner, repo } => method == Method::Post && path
                    == "/repos/"@ + owner@ + "/"@ + repo@ + "/pulls"@,
                ProxyRequest::ListPullRequests { owner, repo, query } => method == Method::Get
                    && path == "/repos/"@ + owner@ + "/"@ + repo@ + "/pulls"@ + match query {
                    Some(q) => "?"@ + q@,
                    None => Seq::empty(),
                },
                ProxyRequest::UpdatePullRequest { owner, repo, number } => method == Method::Patch
                    && path == pull(owner, repo, number),
                ProxyRequest::AddPrReviewComment { owner, repo, number } => method == Method::Post
                    && path == pull(owner, repo, number) + "/comments"@,
                ProxyRequest::CreateRef { owner, repo } => method == Method::Post && path
                    == "/repos/"@ + owner@ + "/"@ + repo@ + "/git/refs"@,
            }
        }),
{
    reveal_strlit("");
    assert(""@ =~= Seq::<char>::empty());
    assert(forall|s: Seq<char>| #[trigger] (s + Seq::<char>::empty()) =~= s);
}

/// GitHub is asked with the token, and by name.
pub proof fn law_token_is_sent_to_github(token: Seq<char>)
    ensures
        upstream_headers(token) == seq![
            ("authorization"@, "Bearer "@ + token),
            ("accept"@, "application/vnd.github+json"@),
            ("x-github-api-version"@, "2022-11-28"@),
            ("user-agent"@, "monkey-gh-proxy"@),
        ],
        API@ == "https://api.github.com"@,
{
}

/// What GitHub answers is handed on: its body as it is written, or the value that
/// stands for success where it is blank. A failure is told with its status and
/// its body; a body that is no JSON is told as the fault of the gateway, unless
/// the status is that of a failure.
pub proof fn law_answers_of_github(status: int, body: Seq<char>, error: Option<Seq<char>>)
    ensures
        ({
            let r = passed_on(status, body, error);
            let blank = text::trimmed(body).len() == 0;
            let failed = 400 <= status <= 599;
            let value = if blank {
                json::PartModel::Value(
                    json::Tree::Object(seq![("ok"@, json::Tree::Bool(true))]),
                )
            } else {
                json::PartModel::Unread(body)
            };
            let fault = json::DocModel::Whole(
                json::PartModel::Value(
                    json::Tree::Object(
                        seq![
                            ("error"@, json::Tree::Bool(true)),
                            ("status"@, json::Tree::Int(status)),
                            (
                                "detail"@,
                                json::Tree::Text("malformed GitHub JSON response: "@ + error->0),
                            ),
                        ],
                    ),
                ),
            );
            &&& !blank && error is Some ==> r.body == fault
            &&& !blank && error is Some && !failed ==> r.status == 502
            &&& !blank && error is Some && failed ==> r.status == status
            &&& (blank || error is None) && failed ==> r.status == status && r.body
                == json::DocModel::Members(
                seq![
                    ("error"@, json::PartModel::Value(json::Tree::Bool(true))),
                    ("status"@, json::PartModel::Value(json::Tree::Int(status))),
                    ("body"@, value),
                ],
            )
            &&& (blank || error is None) && !failed ==> r.body == json::DocModel::Whole(value)
            &&& (blank || error is None) && !failed && status != 204 ==> r.status == status
            &&& (blank || error is None) && status == 204 ==> r.status == 200
        }),
{
}

/// A request that did not reach GitHub, or whose answer could not be read, is
/// told as such.
pub proof fn law_faults_on_the_way_to_github(upstream: Upstream)
    ensures
        ({
            let r = upstream_reply(upstream);
            &&& upstream matches Upstream::NotSent(e) ==> r == detail_reply(
                502,
                "upstream error: "@ + e@,
            )
            &&& upstream matches Upstream::Unreadable { status, error } ==> {
                &&& 400 <= status <= 599 ==> r.status == status
                &&& !(400 <= status <= 599) ==> r.status == 502
                &&& r.body == json::DocModel::Whole(
                    json::PartModel::Value(
                        json::Tree::Object(
                            seq![
                                ("error"@, json::Tree::Bool(true)),
                                ("status"@, json::Tree::Int(status as int)),
                                (
                                    "detail"@,
                                    json::Tree::Text(
                                        "failed to read GitHub response: "@ + error@,
                                    ),
                                ),
                            ],
                        ),
                    ),
                )
            }
            &&& upstream matches Upstream::Answered { status, body } ==> r == passed_on(
                status as int,
                body@,
                foreign::json_error_of(body@),
            )
        }),
{
}

/// A push goes from the checkout to the branch of the repository on GitHub, with
/// force. The token is handed to git in its environment; the arguments are the
/// same whatever it is.
pub proof fn law_pushes(
    worktree: Seq<char>,
    branch: Seq<char>,
    repo: Seq<char>,
    token: Seq<char>,
)
    ensures
        push_arguments(worktree, branch, repo) == seq![
            "-C"@,
            worktree,
            "-c"@,
            "credential.helper="@,
            "-c"@,
            "credential.helper=!f() { echo username=x-access-token; echo password=$GIT_TOKEN; }; f"@,
            "push"@,
            "-f"@,
            "https://github.com/"@ + repo + ".git"@,
            "HEAD:"@ + branch,
        ],
        push_variables(token) == seq![("GIT_TOKEN"@, token), ("GIT_TERMINAL_PROMPT"@, "0"@)],
{
}

/// A push that succeeds is answered with success; one that fails with what git
/// wrote, each token in it replaced by a mark; one that did not start with the
/// reason.
pub proof fn law_answers_to_pushes(run: GitRun, token: Seq<char>)
    ensures
        ({
            let r = push_reply_of(run, token);
            let t = r.body->Whole_0->Value_0;
            &&& r.body is Whole && r.body->Whole_0 is Value
            &&& run matches GitRun::Ended { success, stderr, .. } ==> {
                &&& success ==> r.status == 200 && t == json::Tree::Object(
                    seq![("ok"@, json::Tree::Bool(true))],
                )
                &&& !success ==> r.status == 502 && t == json::Tree::Object(
                    seq![
                        ("detail"@, json::Tree::Text("git push failed"@)),
                        (
                            "stderr"@,
                            json::Tree::Text(text::replaced(stderr@, token, "[redacted]"@)),
                        ),
                    ],
                )
            }
            &&& run matches GitRun::NotStarted(e) ==> r.status == 502 && t == json::Tree::Object(
                seq![
                    ("detail"@, json::Tree::Text("failed to spawn git"@)),
                    ("error"@, json::Tree::Text(e@)),
                ],
            )
        }),
{
}

} // verus!
