//! The calls of the orchestrator to the proxy that holds the GitHub token.

use vstd::prelude::*;
use vstd::string::*;

use crate::decimal;
use crate::foreign;
use crate::gh_writeback;
use crate::gh_writeback::RepoRef;
use crate::hmac_auth;
use crate::json;
use crate::json::{Json, JsonText, Part};
use crate::text;

verus! {

/// The method of a request.
#[derive(Debug, Clone, Copy, PartialEq, Eq, Structural)]
pub enum Method {
    Get,
    Post,
    Patch,
}

impl Method {
    pub open spec fn name(self) -> Seq<char> {
        match self {
            Method::Get => "GET"@,
            Method::Post => "POST"@,
            Method::Patch => "PATCH"@,
        }
    }

    /// The method as it is written in a request.
    pub fn as_str(&self) -> (r: &'static str)
        ensures
            r@ == self.name(),
    {
        match self {
            Method::Get => "GET",
            Method::Post => "POST",
            Method::Patch => "PATCH",
        }
    }
}

/// Why a call to the proxy failed.
#[derive(Debug, Clone)]
pub enum GhProxyError {
    ClientBuild(String),
    SerializeBody(String),
    InvalidHeader(String),
    Request(String),
    Audit(String),
    /// The proxy answered with the status of a failure.
    Status { method: Method, path: String, status: u16, body: String },
    Decode(String),
}

/// What an error stands for.
pub enum GhProxyErrorModel {
    ClientBuild(Seq<char>),
    SerializeBody(Seq<char>),
    InvalidHeader(Seq<char>),
    Request(Seq<char>),
    Audit(Seq<char>),
    Status { method: Method, path: Seq<char>, status: int, body: Seq<char> },
    Decode(Seq<char>),
}

impl View for GhProxyError {
    type V = GhProxyErrorModel;

    open spec fn view(&self) -> GhProxyErrorModel {
        match self {
            GhProxyError::ClientBuild(s) => GhProxyErrorModel::ClientBuild(s@),
            GhProxyError::SerializeBody(s) => GhProxyErrorModel::SerializeBody(s@),
            GhProxyError::InvalidHeader(s) => GhProxyErrorModel::InvalidHeader(s@),
            GhProxyError::Request(s) => GhProxyErrorModel::Request(s@),
            GhProxyError::Audit(s) => GhProxyErrorModel::Audit(s@),
            GhProxyError::Status { method, path, status, body } => GhProxyErrorModel::Status {
                method: *method,
                path: path@,
                status: *status as int,
                body: body@,
            },
            GhProxyError::Decode(s) => GhProxyErrorModel::Decode(s@),
        }
    }
}

impl GhProxyErrorModel {
    /// The error in words, `status_text` being the name of its status.
    pub open spec fn message(self, status_text: Seq<char>) -> Seq<char> {
        match self {
            GhProxyErrorModel::ClientBuild(e) => "failed to build gh-proxy HTTP client: "@ + e,
            GhProxyErrorModel::SerializeBody(e) => "failed to serialize request body: "@ + e,
            GhProxyErrorModel::InvalidHeader(e) => "invalid header value: "@ + e,
            GhProxyErrorModel::Request(e) => "gh-proxy request failed: "@ + e,
            GhProxyErrorModel::Audit(e) => "failed to audit gh-proxy call: "@ + e,
            GhProxyErrorModel::Status { method, path, body, .. } => "gh-proxy "@ + method.name()
                + " "@ + path + " failed with status "@ + status_text + ": "@ + body,
            GhProxyErrorModel::Decode(e) => "malformed gh-proxy JSON response: "@ + e,
        }
    }
}

impl GhProxyError {
    /// The error in words, `status_text` being the name of its status where it
    /// has one.
    pub fn to_text(&self, status_text: &str) -> (r: String)
        ensures
            r@ == self@.message(status_text@),
    {
        match self {
            GhProxyError::ClientBuild(e) => "failed to build gh-proxy HTTP client: ".to_owned(
            ).concat(e.as_str()),
            GhProxyError::SerializeBody(e) => "failed to serialize request body: ".to_owned(
            ).concat(e.as_str()),
            GhProxyError::InvalidHeader(e) => "invalid header value: ".to_owned().concat(
                e.as_str(),
            ),
            GhProxyError::Request(e) => "gh-proxy request failed: ".to_owned().concat(e.as_str()),
            GhProxyError::Audit(e) => "failed to audit gh-proxy call: ".to_owned().concat(
                e.as_str(),
            ),
            GhProxyError::Status { method, path, status: _, body } => {
                let mut r = "gh-proxy ".to_owned();
                r.append(method.as_str());
                r.append(" ");
                r.append(path.as_str());
                r.append(" failed with status ");
                r.append(status_text);
                r.append(": ");
                r.append(body.as_str());
                r
            },
            GhProxyError::Decode(e) => "malformed gh-proxy JSON response: ".to_owned().concat(
                e.as_str(),
            ),
        }
    }
}

/// The status of a failure, of the caller or of the server.
pub open spec fn is_failure(status: int) -> bool {
    400 <= status < 600
}

/// Whether a status is that of a failure.
pub fn status_failed(status: u16) -> (r: bool)
    ensures
        r == is_failure(status as int),
{
    400 <= status && status < 600
}

/// A text without access tokens.
pub open spec fn redacted_text(s: Seq<char>) -> Seq<char> {
    foreign::redacted(s, "[redacted]"@)
}

/// Takes the access tokens out of a text.
pub fn redact(s: &str) -> (r: String)
    ensures
        r@ == redacted_text(s@),
{
    proof {
        reveal_strlit("[redacted]");
    }
    match foreign::regex_replace_all(
        "gh[pousr]_[A-Za-z0-9]+|github_pat_[A-Za-z0-9_]+",
        s,
        "[redacted]",
    ) {
        Some(r) => r,
        None => String::new(),
    }
}

/// A request that is to be sent to the proxy.
#[derive(Debug)]
pub struct ProxyCall {
    pub method: Method,
    pub path: String,
    pub payload: Json,
}

/// What a request stands for.
pub struct ProxyCallModel {
    pub method: Method,
    pub path: Seq<char>,
    pub payload: json::Tree,
}

impl View for ProxyCall {
    type V = ProxyCallModel;

    open spec fn view(&self) -> ProxyCallModel {
        ProxyCallModel { method: self.method, path: self.path@, payload: self.payload@ }
    }
}

/// A request with its signature, ready to be sent.
#[derive(Debug, Clone)]
pub struct SignedCall {
    pub url: String,
    pub signature: String,
    pub timestamp: String,
}

/// What is written down of a call.
#[derive(Debug, Clone)]
pub struct AuditEntry {
    pub owner: String,
    pub repo: String,
    pub number: i64,
    pub tool: String,
    pub args: String,
    pub result: String,
}

/// The client of the proxy for one issue.
#[derive(Debug, Clone)]
pub struct GHProxy {
    pub base: String,
    pub key: String,
    pub owner: String,
    pub repo: String,
    pub number: i64,
}

/// The path of an issue.
pub open spec fn issue_path(owner: Seq<char>, repo: Seq<char>, number: int) -> Seq<char> {
    "/issues/"@ + owner + "/"@ + repo + "/"@ + decimal::decimal(number)
}

/// The path of the pull requests of a repository.
pub open spec fn pulls_path(owner: Seq<char>, repo: Seq<char>) -> Seq<char> {
    "/pulls/"@ + owner + "/"@ + repo
}

/// An object with one text.
pub open spec fn one_text(name: Seq<char>, value: Seq<char>) -> json::Tree {
    json::Tree::Object(seq![(name, json::Tree::Text(value))])
}

/// The query that limits a list of pull requests.
pub open spec fn pulls_query(head: Option<Seq<char>>, state: Option<Seq<char>>) -> Seq<char> {
    match (head, state) {
        (None, None) => Seq::empty(),
        (Some(h), None) => "?"@ + ("head="@ + h),
        (None, Some(s)) => "?"@ + ("state="@ + s),
        (Some(h), Some(s)) => "?"@ + (("head="@ + h) + "&"@ + ("state="@ + s)),
    }
}

/// What a push is asked for with.
pub open spec fn push_tree(
    worktree: Seq<char>,
    branch: Seq<char>,
    owner: Seq<char>,
    repo: Seq<char>,
) -> json::Tree {
    json::Tree::Object(
        seq![
            ("worktree"@, json::Tree::Text(worktree)),
            ("branch"@, json::Tree::Text(branch)),
            ("repo"@, json::Tree::Text(gh_writeback::repo_text(owner, repo))),
        ],
    )
}

/// The value that stands for success without an answer.
pub open spec fn success_tree() -> json::Tree {
    json::Tree::Object(seq![("ok"@, json::Tree::Bool(true))])
}

/// What the answer of the proxy comes to: the text of its value, which is read
/// before anything is asked of it. The body of a failure is handed on without
/// access tokens; `error` says what is wrong with the answer as a JSON value.
pub open spec fn answer_of(
    method: Method,
    path: Seq<char>,
    status: int,
    body: Seq<char>,
    error: Option<Seq<char>>,
) -> Result<json::PartModel, GhProxyErrorModel> {
    if is_failure(status) {
        Err(GhProxyErrorModel::Status { method, path, status, body: redacted_text(body) })
    } else if text::trimmed(body).len() == 0 {
        Ok(json::PartModel::Value(success_tree()))
    } else {
        match error {
            Some(e) => Err(GhProxyErrorModel::Decode(e)),
            None => Ok(json::PartModel::Unread(text::trimmed(body))),
        }
    }
}

pub open spec fn answer_view(r: Result<Part, GhProxyError>) -> Result<
    json::PartModel,
    GhProxyErrorModel,
> {
    match r {
        Ok(p) => Ok(p@),
        Err(e) => Err(e@),
    }
}

pub open spec fn result_view(r: Result<Json, GhProxyError>) -> Result<
    json::Tree,
    GhProxyErrorModel,
> {
    match r {
        Ok(j) => Ok(j@),
        Err(e) => Err(e@),
    }
}

/// The value that stands for success without an answer.
pub fn empty_success_value() -> (r: Json)
    ensures
        r@ == success_tree(),
{
    let members = vec![("ok".to_owned(), Json::Bool(true))];
    assert(json::members_of(members@) =~= success_tree()->Object_0);
    Json::object(members)
}

/// What the answer of the proxy comes to, `error` saying what is wrong with it
/// as a JSON value.
pub fn judge_answer(
    method: Method,
    path: &str,
    status: u16,
    body: &str,
    error: Option<&str>,
) -> (r: Result<Part, GhProxyError>)
    ensures
        answer_view(r) == answer_of(
            method,
            path@,
            status as int,
            body@,
            json::text_of(error),
        ),
{
    if status_failed(status) {
        return Err(
            GhProxyError::Status { method, path: path.to_owned(), status, body: redact(body) },
        );
    }
    let trimmed = text::trim(body);
    if trimmed.is_empty() {
        return Ok(Part::Value(empty_success_value()));
    }
    match error {
        Some(e) => Err(GhProxyError::Decode(e.to_owned())),
        None => Ok(Part::Unread(JsonText { text: trimmed.to_owned() })),
    }
}

impl GHProxy {
    /// The client for an issue; slashes at the end of the address are dropped.
    pub fn new(base_url: &str, hmac_key: &str, repo_ref: &RepoRef) -> (r: Self)
        ensures
            r.base@ == text::drop_back(base_url@, text::CharSet::Slash),
            r.key@ == hmac_key@,
            r.owner@ == repo_ref.owner@,
            r.repo@ == repo_ref.repo@,
            r.number == repo_ref.number,
    {
        GHProxy {
            base: text::strip_back(base_url, text::CharSet::Slash).to_owned(),
            key: hmac_key.to_owned(),
            owner: repo_ref.owner.clone(),
            repo: repo_ref.repo.clone(),
            number: repo_ref.number,
        }
    }

    /// Signs a request at the given time. The proxy accepts the signature as
    /// long as its clock lies within the window round that time.
    pub fn sign_at(&self, path: &str, serialized: &str, timestamp: i64) -> (r: SignedCall)
        ensures
            r.url@ == self.base@ + path@,
            r.timestamp@ == decimal::decimal(timestamp as int),
            r.signature@ == hmac_auth::signature(
                self.key@,
                hmac_auth::stamped(timestamp as int, hmac_auth::bytes_of(serialized@)),
            ),
            forall|skew: int, now: int|
                hmac_auth::distance(now, timestamp as int) <= skew
                    ==> #[trigger] hmac_auth::internal_verdict(
                    self.key@,
                    hmac_auth::bytes_of(serialized@),
                    Some(r.signature@),
                    Some(r.timestamp@),
                    skew,
                    now,
                ) is Ok,
    {
        let signature = hmac_auth::hmac_sign_with_timestamp(
            self.key.as_str(),
            serialized.as_bytes(),
            timestamp,
        );
        SignedCall {
            url: self.base.clone().concat(path),
            signature,
            timestamp: decimal::decimal_i64(timestamp),
        }
    }

    /// Signs a request at the present time. The proxy accepts the signature as
    /// long as its clock lies within the window round that time.
    pub fn call(&self, path: &str, serialized: &str) -> (r: SignedCall)
        ensures
            r.url@ == self.base@ + path@,
            exists|timestamp: i64|
                {
                    &&& timestamp >= 0
                    &&& r.timestamp@ == #[trigger] decimal::decimal(timestamp as int)
                    &&& r.signature@ == hmac_auth::signature(
                        self.key@,
                        hmac_auth::stamped(
                            timestamp as int,
                            hmac_auth::bytes_of(serialized@),
                        ),
                    )
                    &&& forall|skew: int, now: int|
                        hmac_auth::distance(now, timestamp as int) <= skew
                            ==> #[trigger] hmac_auth::internal_verdict(
                            self.key@,
                            hmac_auth::bytes_of(serialized@),
                            Some(r.signature@),
                            Some(r.timestamp@),
                            skew,
                            now,
                        ) is Ok
                },
    {
        let timestamp: i64 = foreign::unix_seconds();
        self.sign_at(path, serialized, timestamp)
    }

    /// What is written down of a call, without access tokens, and what the
    /// answer comes to.
    pub fn conclude(
        &self,
        method: Method,
        path: &str,
        serialized: &str,
        status: u16,
        body: &str,
    ) -> (r: (AuditEntry, Result<Part, GhProxyError>))
        ensures
            r.0.owner@ == self.owner@,
            r.0.repo@ == self.repo@,
            r.0.number == self.number,
            r.0.tool@ == path@,
            r.0.args@ == redacted_text(serialized@),
            r.0.result@ == redacted_text(body@),
            answer_view(r.1) == answer_of(
                method,
                path@,
                status as int,
                body@,
                foreign::json_error_of(text::trimmed(body@)),
            ),
    {
        let entry = AuditEntry {
            owner: self.owner.clone(),
            repo: self.repo.clone(),
            number: self.number,
            tool: path.to_owned(),
            args: redact(serialized),
            result: redact(body),
        };
        let result = match foreign::json_error(text::trim(body)) {
            Some(e) => judge_answer(method, path, status, body, Some(e.as_str())),
            None => judge_answer(method, path, status, body, None),
        };
        (entry, result)
    }

    fn issue(&self) -> (r: String)
        ensures
            r@ == issue_path(self.owner@, self.repo@, self.number as int),
    {
        let mut r = "/issues/".to_owned();
        r.append(self.owner.as_str());
        r.append("/");
        r.append(self.repo.as_str());
        r.append("/");
        r.append(decimal::decimal_i64(self.number).as_str());
        r
    }

    fn pulls(&self) -> (r: String)
        ensures
            r@ == pulls_path(self.owner@, self.repo@),
    {
        let mut r = "/pulls/".to_owned();
        r.append(self.owner.as_str());
        r.append("/");
        r.append(self.repo.as_str());
        r
    }

    /// The request that comments on the issue.
    pub fn add_issue_comment(&self, body: &str) -> (r: ProxyCall)
        ensures
            r@ == (ProxyCallModel {
                method: Method::Post,
                path: issue_path(self.owner@, self.repo@, self.number as int) + "/comment"@,
                payload: one_text("body"@, body@),
            }),
    {
        let members = vec![("body".to_owned(), Json::text(body))];
        assert(json::members_of(members@) =~= one_text("body"@, body@)->Object_0);
        ProxyCall {
            method: Method::Post,
            path: self.issue().concat("/comment"),
            payload: Json::object(members),
        }
    }

    /// The request that puts labels on the issue.
    pub fn add_labels(&self, labels: &Vec<String>) -> (r: ProxyCall)
        ensures
            r@ == (ProxyCallModel {
                method: Method::Post,
                path: issue_path(self.owner@, self.repo@, self.number as int) + "/labels"@,
                payload: json::Tree::Object(
                    seq![
                        (
                            "labels"@,
                            json::Tree::Array(
                                text::texts(labels@).map_values(
                                    |s: Seq<char>| json::Tree::Text(s),
                                ),
                            ),
                        ),
                    ],
                ),
            }),
    {
        let mut items: Vec<Json> = Vec::new();
        let mut i: usize = 0;
        while i < labels.len()
            invariant
                i <= labels.len(),
                items@.len() == i,
                forall|k: int|
                    0 <= k < i ==> (#[trigger] items@[k])@ == json::Tree::Text(labels@[k]@),
            decreases labels.len() - i,
        {
            items.push(Json::text(labels[i].as_str()));
            i += 1;
        }
        let array = Json::Array(items);
        assert(array@->Array_0 =~= text::texts(labels@).map_values(
            |s: Seq<char>| json::Tree::Text(s),
        ));
        let members = vec![("labels".to_owned(), array)];
        assert(json::members_of(members@) =~= seq![("labels"@, array@)]);
        ProxyCall {
            method: Method::Post,
            path: self.issue().concat("/labels"),
            payload: Json::object(members),
        }
    }

    /// The request that changes the issue.
    pub fn update_issue(&self, body: Json) -> (r: ProxyCall)
        ensures
            r@ == (ProxyCallModel {
                method: Method::Patch,
                path: issue_path(self.owner@, self.repo@, self.number as int),
                payload: body@,
            }),
    {
        ProxyCall { method: Method::Patch, path: self.issue(), payload: body }
    }

    /// The request that closes the issue.
    pub fn close_issue(&self) -> (r: ProxyCall)
        ensures
            r@ == (ProxyCallModel {
                method: Method::Patch,
                path: issue_path(self.owner@, self.repo@, self.number as int),
                payload: one_text("state"@, "closed"@),
            }),
    {
        let members = vec![("state".to_owned(), Json::text("closed"))];
        assert(json::members_of(members@) =~= one_text("state"@, "closed"@)->Object_0);
        self.update_issue(Json::object(members))
    }

    /// The request that lists the reactions to the issue.
    pub fn list_issue_reactions(&self) -> (r: ProxyCall)
        ensures
            r@ == (ProxyCallModel {
                method: Method::Get,
                path: issue_path(self.owner@, self.repo@, self.number as int) + "/reactions"@,
                payload: json::Tree::Object(Seq::empty()),
            }),
    {
        ProxyCall {
            method: Method::Get,
            path: self.issue().concat("/reactions"),
            payload: empty_object(),
        }
    }

    /// The request that opens a pull request.
    pub fn open_pull_request(&self, body: Json) -> (r: ProxyCall)
        ensures
            r@ == (ProxyCallModel {
                method: Method::Post,
                path: pulls_path(self.owner@, self.repo@),
                payload: body@,
            }),
    {
        ProxyCall { method: Method::Post, path: self.pulls(), payload: body }
    }

    /// The request that lists pull requests.
    pub fn list_pull_requests(&self, head: Option<&str>, state: Option<&str>) -> (r: ProxyCall)
        ensures
            r@ == (ProxyCallModel {
                method: Method::Get,
                path: pulls_path(self.owner@, self.repo@) + pulls_query(
                    json::text_of(head),
                    json::text_of(state),
                ),
                payload: json::Tree::Object(Seq::empty()),
            }),
    {
        let mut query: Vec<String> = Vec::new();
        if let Some(h) = head {
            query.push("head=".to_owned().concat(h));
        }
        if let Some(s) = state {
            query.push("state=".to_owned().concat(s));
        }
        let mut path = self.pulls();
        if query.len() > 0 {
            let ghost parts = text::texts(query@);
            let joined = text::join_with(&query, "&");
            proof {
                reveal_with_fuel(text::joined_by, 3);
                if query.len() == 2 {
                    assert(parts.drop_last().len() == 1);
                    assert(parts.drop_last()[0] == parts[0]);
                }
            }
            path.append("?".to_owned().concat(joined.as_str()).as_str());
        }
        proof {
            assert(path@ =~= pulls_path(self.owner@, self.repo@) + pulls_query(
                json::text_of(head),
                json::text_of(state),
            ));
        }
        ProxyCall { method: Method::Get, path, payload: empty_object() }
    }

    /// The request that changes a pull request.
    pub fn update_pull_request(&self, pull_number: i64, body: Json) -> (r: ProxyCall)
        ensures
            r@ == (ProxyCallModel {
                method: Method::Patch,
                path: pulls_path(self.owner@, self.repo@) + "/"@ + decimal::decimal(
                    pull_number as int,
                ),
                payload: body@,
            }),
    {
        let mut path = self.pulls();
        path.append("/");
        path.append(decimal::decimal_i64(pull_number).as_str());
        ProxyCall { method: Method::Patch, path, payload: body }
    }

    /// The request that pushes a branch.
    pub fn push(&self, worktree: &str, branch: &str) -> (r: ProxyCall)
        ensures
            r@ == (ProxyCallModel {
                method: Method::Post,
                path: "/git/push"@,
                payload: push_tree(worktree@, branch@, self.owner@, self.repo@),
            }),
    {
        let mut repo = self.owner.clone();
        repo.append("/");
        repo.append(self.repo.as_str());
        let members = vec![
            ("worktree".to_owned(), Json::text(worktree)),
            ("branch".to_owned(), Json::text(branch)),
            ("repo".to_owned(), Json::Text(repo)),
        ];
        assert(json::members_of(members@) =~= push_tree(
            worktree@,
            branch@,
            self.owner@,
            self.repo@,
        )->Object_0);
        ProxyCall {
            method: Method::Post,
            path: "/git/push".to_owned(),
            payload: Json::object(members),
        }
    }
}

fn empty_object() -> (r: Json)
    ensures
        r@ == json::Tree::Object(Seq::empty()),
{
    let none: Vec<(String, Json)> = Vec::new();
    assert(json::members_of(none@) =~= Seq::<(Seq<char>, json::Tree)>::empty());
    Json::object(none)
}

/// An access token stands somewhere in `s`.
pub open spec fn holds_token(s: Seq<char>) -> bool {
    exists|i: int| 0 <= i <= s.len() && foreign::token_len(#[trigger] s.skip(i)) > 0
}

proof fn lemma_front_is_kept(s: Seq<char>, k: int)
    requires
        0 <= k <= redacted_text(s).len(),
        forall|j: int| 0 <= j < k ==> #[trigger] redacted_text(s)[j] != '[',
    ensures
        k <= s.len(),
        forall|j: int| 0 <= j < k ==> #[trigger] s[j] == redacted_text(s)[j],
    decreases s.len(),
{
    reveal_strlit("[redacted]");
    let r = redacted_text(s);
    if k > 0 {
        assert(r[0] != '[');
        let rest = s.drop_first();
        let q = redacted_text(rest);
        assert(r =~= seq![s[0]] + q);
        assert forall|j: int| 0 <= j < k - 1 implies #[trigger] q[j] != '[' by {
            assert(q[j] == r[j + 1]);
        }
        lemma_front_is_kept(rest, k - 1);
        assert forall|j: int| 0 <= j < k implies #[trigger] s[j] == r[j] by {
            if j > 0 {
                assert(s[j] == rest[j - 1]);
                assert(r[j] == q[j - 1]);
            }
        }
    }
}

proof fn lemma_no_token_in_front(s: Seq<char>)
    ensures
        foreign::token_len(redacted_text(s)) == 0,
{
    reveal_strlit("[redacted]");
    reveal_strlit("github_pat_");
    let r = redacted_text(s);
    if foreign::token_len(r) > 0 {
        assert(r[0] == 'g') by {
            if text::begins_with(r, "github_pat_"@) {
                assert(r.subrange(0, 11)[0] == "github_pat_"@[0]);
            }
        }
        assert(s.len() > 0);
        assert(foreign::token_len(s) == 0);
        if text::begins_with(r, "github_pat_"@) {
            let front = r.subrange(0, 11);
            assert forall|j: int| 0 <= j < 11 implies #[trigger] r[j] == "github_pat_"@[j] by {
                assert(front[j] == r[j]);
            }
            assert(foreign::token_run(r, 11, true) > 0);
            lemma_front_is_kept(s, 12);
            assert(s.subrange(0, 11) =~= "github_pat_"@);
            assert(s[11] == r[11]);
            assert(foreign::token_run(s, 11, true) > 0);
            assert(s[1] == r[1]);
        } else {
            assert(foreign::token_run(r, 4, false) > 0);
            lemma_front_is_kept(s, 5);
            assert(s[0] == r[0] && s[1] == r[1] && s[2] == r[2] && s[3] == r[3] && s[4] == r[4]);
            assert(foreign::token_run(s, 4, false) > 0);
        }
        assert(false);
    }
}

proof fn lemma_no_token_from(s: Seq<char>, i: int)
    requires
        0 <= i <= redacted_text(s).len(),
    ensures
        foreign::token_len(redacted_text(s).skip(i)) == 0,
    decreases s.len(),
{
    reveal_strlit("[redacted]");
    reveal_strlit("github_pat_");
    let mark = "[redacted]"@;
    let r = redacted_text(s);
    let tail = r.skip(i);
    if s.len() == 0 {
        if text::begins_with(tail, "github_pat_"@) {
            assert(tail.len() >= 11);
        }
    } else if foreign::token_len(s) > 0 {
        let n = foreign::token_len(s);
        foreign::lemma_token_len(s);
        let rest = s.skip(n as int);
        assert(r == mark + redacted_text(rest));
        if i < 10 {
            assert(tail[0] == mark[i]);
            if text::begins_with(tail, "github_pat_"@) {
                assert(tail.subrange(0, 11)[0] == "github_pat_"@[0]);
            }
        } else {
            assert(tail =~= redacted_text(rest).skip(i - 10));
            lemma_no_token_from(rest, i - 10);
        }
    } else if i == 0 {
        assert(tail =~= r);
        lemma_no_token_in_front(s);
    } else {
        let rest = s.drop_first();
        assert(r == seq![s[0]] + redacted_text(rest));
        assert(tail =~= redacted_text(rest).skip(i - 1));
        lemma_no_token_from(rest, i - 1);
    }
}

/// What has been redacted holds no access token, whatever it was made from.
pub proof fn law_redaction_leaves_no_token(s: Seq<char>)
    ensures
        !holds_token(redacted_text(s)),
{
    let r = redacted_text(s);
    assert forall|i: int| 0 <= i <= r.len() implies foreign::token_len(#[trigger] r.skip(i))
        == 0 by {
        lemma_no_token_from(s, i);
    }
}

/// A text that holds no access token is left as it is; so redacting twice
/// changes nothing more.
pub proof fn law_redaction_keeps_the_rest(s: Seq<char>)
    requires
        !holds_token(s),
    ensures
        redacted_text(s) == s,
    decreases s.len(),
{
    if s.len() > 0 {
        assert(s.skip(0) =~= s);
        let rest = s.drop_first();
        assert forall|i: int| 0 <= i <= rest.len() implies foreign::token_len(
            #[trigger] rest.skip(i),
        ) == 0 by {
            assert(rest.skip(i) =~= s.skip(i + 1));
        }
        law_redaction_keeps_the_rest(rest);
        assert(redacted_text(s) =~= s);
    }
}

/// What the proxy answers: a failure is handed on with its status and its body
/// without access tokens, an empty answer is success, and any other is the text
/// of its value, or a fault where it is no JSON.
pub proof fn law_answers_of_the_proxy(
    method: Method,
    path: Seq<char>,
    status: int,
    body: Seq<char>,
    error: Option<Seq<char>>,
)
    ensures
        ({
            let r = answer_of(method, path, status, body, error);
            let failed = 400 <= status <= 599;
            let value = text::trimmed(body);
            &&& failed ==> r == Err::<json::PartModel, GhProxyErrorModel>(
                GhProxyErrorModel::Status { method, path, status, body: redacted_text(body) },
            )
            &&& !failed && value.len() == 0 ==> r == Ok::<json::PartModel, GhProxyErrorModel>(
                json::PartModel::Value(
                    json::Tree::Object(seq![("ok"@, json::Tree::Bool(true))]),
                ),
            )
            &&& !failed && value.len() > 0 && error is None ==> r == Ok::<
                json::PartModel,
                GhProxyErrorModel,
            >(json::PartModel::Unread(value))
            &&& !failed && value.len() > 0 && error is Some ==> r == Err::<
                json::PartModel,
                GhProxyErrorModel,
            >(GhProxyErrorModel::Decode(error->0))
            &&& is_failure(status) <==> failed
        }),
{
}

/// Where the requests for an issue and for the pull requests of a repository go,
/// and what they carry.
pub proof fn law_requests_to_the_proxy(
    owner: Seq<char>,
    repo: Seq<char>,
    number: int,
    a: Seq<char>,
    b: Seq<char>,
)
    ensures
        issue_path(owner, repo, number) == "/issues/"@ + owner + "/"@ + repo + "/"@
            + decimal::decimal(number),
        pulls_path(owner, repo) == "/pulls/"@ + owner + "/"@ + repo,
        pulls_query(None, None) == Seq::<char>::empty(),
        pulls_query(Some(a), None) == "?head="@ + a,
        pulls_query(None, Some(b)) == "?state="@ + b,
        pulls_query(Some(a), Some(b)) == "?head="@ + a + "&state="@ + b,
        one_text(a, b) == json::Tree::Object(seq![(a, json::Tree::Text(b))]),
        push_tree(a, b, owner, repo) == json::Tree::Object(
            seq![
                ("worktree"@, json::Tree::Text(a)),
                ("branch"@, json::Tree::Text(b)),
                ("repo"@, json::Tree::Text(owner + "/"@ + repo)),
            ],
        ),
{
    reveal_strlit("?");
    reveal_strlit("&");
    reveal_strlit("head=");
    reveal_strlit("state=");
    reveal_strlit("?head=");
    reveal_strlit("?state=");
    reveal_strlit("&state=");
    assert("?head="@ =~= "?"@ + "head="@);
    assert("?state="@ =~= "?"@ + "state="@);
    assert("&state="@ =~= "&"@ + "state="@);
    assert(pulls_query(Some(a), None) =~= "?head="@ + a);
    assert(pulls_query(None, Some(b)) =~= "?state="@ + b);
    assert(pulls_query(Some(a), Some(b)) =~= "?head="@ + a + "&state="@ + b);
}

/// Each method and each error is told in its own words.
pub proof fn law_proxy_errors_in_words(
    method: Method,
    path: Seq<char>,
    status: int,
    status_text: Seq<char>,
    e: Seq<char>,
)
    ensures
        Method::Get.name() == "GET"@,
        Method::Post.name() == "POST"@,
        Method::Patch.name() == "PATCH"@,
        (GhProxyErrorModel::Status { method, path, status, body: e }).message(status_text)
            == "gh-proxy "@ + method.name() + " "@ + path + " failed with status "@ + status_text
            + ": "@ + e,
        GhProxyErrorModel::ClientBuild(e).message(status_text)
            == "failed to build gh-proxy HTTP client: "@ + e,
        GhProxyErrorModel::SerializeBody(e).message(status_text)
            == "failed to serialize request body: "@ + e,
        GhProxyErrorModel::InvalidHeader(e).message(status_text) == "invalid header value: "@ + e,
        GhProxyErrorModel::Request(e).message(status_text) == "gh-proxy request failed: "@ + e,
        GhProxyErrorModel::Audit(e).message(status_text) == "failed to audit gh-proxy call: "@ + e,
        GhProxyErrorModel::Decode(e).message(status_text) == "malformed gh-proxy JSON response: "@
            + e,
{
}

proof fn lemma_token_run_is(s: Seq<char>, i: int, n: int, fine_grained: bool)
    requires
        0 <= i <= i + n <= s.len(),
        forall|j: int|
            i <= j < i + n ==> (if fine_grained {
                foreign::is_pat_char(#[trigger] s[j])
            } else {
                foreign::is_token_char(s[j])
            }),
        i + n < s.len() ==> !(if fine_grained {
            foreign::is_pat_char(s[i + n])
        } else {
            foreign::is_token_char(s[i + n])
        }),
    ensures
        foreign::token_run(s, i, fine_grained) == n,
    decreases n,
{
    if n > 0 {
        assert(if fine_grained {
            foreign::is_pat_char(s[i])
        } else {
            foreign::is_token_char(s[i])
        });
        lemma_token_run_is(s, i + 1, n - 1, fine_grained);
    }
}

/// An access token, from its prefix to the last of its letters and digits, is
/// replaced by the mark, and what lies before it is kept; the rest is redacted in
/// the same way.
pub proof fn law_tokens_are_redacted(
    before: Seq<char>,
    kind: char,
    run: Seq<char>,
    rest: Seq<char>,
)
    requires
        kind == 'p' || kind == 'o' || kind == 'u' || kind == 's' || kind == 'r',
        run.len() > 0,
        forall|i: int|
            0 <= i < run.len() ==> ('A' <= #[trigger] run[i] <= 'Z' || 'a' <= run[i] <= 'z' || '0'
                <= run[i] <= '9'),
        rest.len() > 0 ==> !('A' <= rest[0] <= 'Z' || 'a' <= rest[0] <= 'z' || '0' <= rest[0]
            <= '9'),
        !before.contains('g'),
    ensures
        redacted_text(before + (seq!['g', 'h', kind, '_'] + run) + rest) == before
            + "[redacted]"@ + redacted_text(rest),
    decreases before.len(),
{
    reveal_strlit("github_pat_");
    let token = seq!['g', 'h', kind, '_'] + run;
    let s = before + token + rest;
    if before.len() == 0 {
        assert(s =~= token + rest);
        assert(s[0] == 'g' && s[1] == 'h' && s[2] == kind && s[3] == '_');
        assert forall|j: int| 4 <= j < 4 + run.len() implies foreign::is_token_char(
            #[trigger] s[j],
        ) by {
            assert(s[j] == run[j - 4]);
        }
        if rest.len() > 0 {
            assert(s[4 + run.len() as int] == rest[0]);
        }
        lemma_token_run_is(s, 4, run.len() as int, false);
        assert(foreign::token_len(s) == token.len());
        assert(s.skip(token.len() as int) =~= rest);
        assert(before + "[redacted]"@ =~= "[redacted]"@);
    } else {
        let shorter = before.drop_first();
        assert(s.drop_first() =~= shorter + token + rest);
        assert(s[0] == before[0]);
        assert(before.contains(before[0]));
        assert(s[0] != 'g');
        assert(foreign::token_len(s) == 0) by {
            if text::begins_with(s, "github_pat_"@) {
                assert(s.subrange(0, 11)[0] == "github_pat_"@[0]);
            }
        }
        assert(!shorter.contains('g')) by {
            if shorter.contains('g') {
                let i = choose|i: int| 0 <= i < shorter.len() && shorter[i] == 'g';
                assert(before[i + 1] == 'g');
            }
        }
        law_tokens_are_redacted(shorter, kind, run, rest);
        assert(seq![s[0]] + (shorter + "[redacted]"@ + redacted_text(rest)) =~= before
            + "[redacted]"@ + redacted_text(rest));
    }
}

/// A fine-grained access token is replaced by the mark, from its prefix to the
/// last of its letters, digits and underscores.
pub proof fn law_fine_grained_tokens_are_redacted(run: Seq<char>, rest: Seq<char>)
    requires
        run.len() > 0,
        forall|i: int|
            0 <= i < run.len() ==> ('A' <= #[trigger] run[i] <= 'Z' || 'a' <= run[i] <= 'z' || '0'
                <= run[i] <= '9' || run[i] == '_'),
        rest.len() > 0 ==> !('A' <= rest[0] <= 'Z' || 'a' <= rest[0] <= 'z' || '0' <= rest[0]
            <= '9' || rest[0] == '_'),
    ensures
        redacted_text("github_pat_"@ + run + rest) == "[redacted]"@ + redacted_text(rest),
{
    reveal_strlit("github_pat_");
    let s = "github_pat_"@ + run + rest;
    assert(s.subrange(0, 11) =~= "github_pat_"@);
    assert(s[0] == 'g' && s[1] == 'i');
    assert forall|j: int| 11 <= j < 11 + run.len() implies foreign::is_pat_char(
        #[trigger] s[j],
    ) by {
        assert(s[j] == run[j - 11]);
    }
    if rest.len() > 0 {
        assert(s[11 + run.len() as int] == rest[0]);
    }
    lemma_token_run_is(s, 11, run.len() as int, true);
    assert(s.skip(11 + run.len() as int) =~= rest);
}

} // verus!
