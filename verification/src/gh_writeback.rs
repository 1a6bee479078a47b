//! Writing the outcome of a run back to GitHub.

use vstd::prelude::*;
use vstd::string::*;

use crate::adapters;
use crate::adapters::Outcome;
use crate::adapters::pi;
use crate::decimal;
use crate::dispatch;
use crate::dispatch::TaskKind;
use crate::foreign;
use crate::host_tools;
use crate::host_tools::GhProxyError;
use crate::json;
use crate::json::Json;
use crate::sandbox::GitRun;
use crate::text;

verus! {

/// The issue that a write-back is for.
#[derive(Debug, Clone, PartialEq, Eq)]
pub struct RepoRef {
    pub owner: String,
    pub repo: String,
    pub number: i64,
}

/// A repository as it is written: `owner/repo`.
pub open spec fn repo_text(owner: Seq<char>, repo: Seq<char>) -> Seq<char> {
    owner + "/"@ + repo
}

impl RepoRef {
    /// The repository of the issue, as it is written.
    pub fn slug(&self) -> (r: String)
        ensures
            r@ == repo_text(self.owner@, self.repo@),
    {
        let mut r = self.owner.clone();
        r.append("/");
        r.append(self.repo.as_str());
        r
    }
}

// ---------------------------------------------------------------------------
// Required headers
// ---------------------------------------------------------------------------

/// All four sections of a report stand in a text.
pub open spec fn has_all_sections(body: Seq<char>) -> bool {
    pi::section_count(body) == 4
}

/// Whether a text may become the body of a pull request, `closes` saying
/// whether it matches the expression for the issue.
pub fn headers_present(body: &str, closes: Option<bool>) -> (r: bool)
    ensures
        r == (has_all_sections(body@) && closes == Some(true)),
{
    pi::count_sections(body) == 4 && match closes {
        Some(b) => b,
        None => false,
    }
}

/// A text may become the body of a pull request for the issue `number`: all
/// sections of a report stand in it, and it says that it closes the issue.
pub open spec fn passes_gate(body: Seq<char>, number: int) -> bool {
    has_all_sections(body) && foreign::regex_is_match_of(
        foreign::closing_pattern(number),
        body,
    ) == Some(true)
}

/// Whether a text may become the body of a pull request for the issue.
pub fn has_required_headers(body: &str, number: i64) -> (r: bool)
    ensures
        r == passes_gate(body@, number as int),
        has_all_sections(body@) && foreign::closes_issue(body@, number as int) ==> r,
        r && vstd::utf8::is_ascii_chars(body@) ==> foreign::closes_issue(body@, number as int),
        r ==> text::has_text(body@, "#"@ + decimal::decimal(number as int)),
{
    let mut pattern = "(?i)(?:Fixes|Closes|Resolves)\\s+#".to_owned();
    pattern.append(decimal::decimal_i64(number).as_str());
    pattern.append("\\b");
    assert(pattern@ == foreign::closing_pattern(number as int));
    headers_present(body, foreign::regex_is_match(pattern.as_str(), body))
}

/// The closing line that the engine is asked for closes the issue, wherever it
/// stands, as long as no letter, digit or underscore follows it.
pub proof fn law_closing_line_closes(before: Seq<char>, number: int, after: Seq<char>)
    requires
        after.len() > 0 ==> foreign::is_plain_end(after[0]),
    ensures
        foreign::closes_issue(
            before + dispatch::fix_target_text(Some(number)) + after,
            number,
        ),
{
    reveal_strlit("Fixes");
    reveal_strlit("Fixes #");
    let d = decimal::decimal(number);
    let line = "Fixes #"@ + d;
    let s = before + line + after;
    let i = before.len() as int;
    assert(s.subrange(i, i + 5) =~= "Fixes"@);
    assert(s[i + 5] == ' ');
    assert(s[i + 6] == '#');
    assert(s.subrange(i + 7, i + 7 + d.len()) =~= d);
    assert(text::occurs_at(s, d, i + 7));
    assert(foreign::closes_at(s, "Fixes"@, number, i, 1));
}

/// The comment that a text becomes.
pub open spec fn comment_text(s: Seq<char>) -> Seq<char> {
    if text::trimmed(s).len() == 0 {
        "_no response produced_"@
    } else {
        text::trimmed(s)
    }
}

/// The comment that a text becomes; never an empty one.
pub fn ensure_comment(s: &str) -> (r: String)
    ensures
        r@ == comment_text(s@),
{
    let trimmed = text::trim(s);
    if trimmed.is_empty() {
        "_no response produced_".to_owned()
    } else {
        trimmed.to_owned()
    }
}

// ---------------------------------------------------------------------------
// The title
// ---------------------------------------------------------------------------

/// The number of bytes of a character.
pub open spec fn width(c: char) -> nat {
    vstd::utf8::encode_scalar(c as u32).len()
}

fn char_width(c: char) -> (r: usize)
    ensures
        r == width(c),
        1 <= r <= 4,
{
    let n: u32 = c as u32;
    if n < 0x80 {
        1
    } else if n < 0x800 {
        2
    } else if n < 0x10000 {
        3
    } else {
        4
    }
}

/// How many characters of `s` fit in `max` bytes.
pub open spec fn fitting(s: Seq<char>, max: int) -> int
    decreases s.len(),
{
    if s.len() == 0 || width(s[0]) > max {
        0
    } else {
        1 + fitting(s.drop_first(), max - width(s[0]))
    }
}

/// The longest prefix of `s` that fits in `max` bytes.
pub open spec fn truncated(s: Seq<char>, max: int) -> Seq<char> {
    s.take(fitting(s, max))
}

/// The longest prefix of a text that fits in some bytes.
pub fn truncate_utf8(s: &str, max_bytes: usize) -> (r: String)
    ensures
        r@ == truncated(s@, max_bytes as int),
{
    let chars = text::chars_of(s);
    let mut i: usize = 0;
    let mut left: usize = max_bytes;
    assert(s@.skip(0) == s@);
    while i < chars.len() && char_width(chars[i]) <= left
        invariant
            i <= chars.len(),
            chars@ == s@,
            fitting(s@, max_bytes as int) == i + fitting(s@.skip(i as int), left as int),
        decreases chars.len() - i,
    {
        assert(s@.skip(i as int).drop_first() == s@.skip(i + 1));
        left = left - char_width(chars[i]);
        i += 1;
    }
    assert(s@.take(i as int) == s@.subrange(0, i as int));
    s.substring_char(0, i).to_owned()
}

proof fn lemma_encoding_grows(s: Seq<char>, k: int)
    requires
        0 < k <= s.len(),
    ensures
        vstd::utf8::encode_utf8(s.take(k)) == vstd::utf8::encode_scalar(s[0] as u32)
            + vstd::utf8::encode_utf8(s.drop_first().take(k - 1)),
{
    assert(s.take(k).drop_first() =~= s.drop_first().take(k - 1));
    assert(s.take(k)[0] == s[0]);
}

/// A truncated text is a prefix, fits in the bytes that were given, and is
/// the longest such one.
pub proof fn law_truncation_fits(s: Seq<char>, max: int)
    requires
        0 <= max,
    ensures
        0 <= fitting(s, max) <= s.len(),
        vstd::utf8::encode_utf8(truncated(s, max)).len() <= max,
        fitting(s, max) < s.len() ==> vstd::utf8::encode_utf8(
            s.take(fitting(s, max) + 1),
        ).len() > max,
    decreases s.len(),
{
    let k = fitting(s, max);
    if s.len() > 0 {
        if width(s[0]) > max {
            assert(s.take(0).len() == 0);
            lemma_encoding_grows(s, 1);
        } else {
            let rest = s.drop_first();
            law_truncation_fits(rest, max - width(s[0]));
            lemma_encoding_grows(s, k);
            if k < s.len() {
                lemma_encoding_grows(s, k + 1);
            }
        }
    } else {
        assert(s.take(0).len() == 0);
    }
}

/// The words of a title: without marks of a heading, without the prefix of a
/// conventional commit and without punctuation at the end.
pub open spec fn title_words(raw: Seq<char>) -> Seq<char> {
    let heading = text::trimmed(text::drop_front(text::trimmed(raw), text::CharSet::Hash));
    text::drop_back(text::trimmed(foreign::without_prefix(heading)), text::CharSet::Closing)
}

/// The words of a title.
pub fn clean_words(raw: &str) -> (r: String)
    ensures
        r@ == title_words(raw@),
{
    let heading = text::trim(text::strip_front(text::trim(raw), text::CharSet::Hash));
    let plain = match foreign::regex_replace(
        "^(?i:[a-z]+)(?:\\([^\\)]+\\))?!?:\\s*",
        heading,
        "",
    ) {
        Some(s) => s,
        None => String::new(),
    };
    text::strip_back(text::trim(plain.as_str()), text::CharSet::Closing).to_owned()
}

/// A text with its first character in upper case, where it is in lower case.
pub open spec fn capitalized(s: Seq<char>, is_lower: bool, upper: Seq<char>) -> Seq<char> {
    if s.len() > 0 && is_lower {
        upper + s.drop_first()
    } else {
        s
    }
}

/// Finishes a title: `is_lower` says whether its first character is in lower
/// case, and `upper` is the upper case of it.
pub fn finish_title(words: &str, is_lower: bool, upper: &str) -> (r: String)
    ensures
        r@ == truncated(capitalized(words@, is_lower, upper@), 120),
{
    if is_lower && !words.is_empty() {
        let n: usize = words.unicode_len();
        assert(words@.subrange(1, n as int) == words@.drop_first());
        let capital = upper.to_owned().concat(words.substring_char(1, n));
        truncate_utf8(capital.as_str(), 120)
    } else {
        truncate_utf8(words, 120)
    }
}

/// The title that a text becomes.
pub open spec fn title_of(raw: Seq<char>) -> Seq<char> {
    let words = title_words(raw);
    truncated(
        capitalized(
            words,
            foreign::is_lowercase_of(words[0]),
            foreign::uppercase_of(words[0]),
        ),
        120,
    )
}

/// The title that a text becomes.
pub fn clean_pr_title(raw: &str) -> (r: String)
    ensures
        r@ == title_of(raw@),
        ({
            let words = title_words(raw@);
            words.len() > 0 && words[0] <= '\u{7f}' ==> r@ == truncated(
                capitalized(
                    words,
                    'a' <= words[0] <= 'z',
                    seq![foreign::ascii_upper(words[0])],
                ),
                120,
            )
        }),
{
    let words = clean_words(raw);
    if words.as_str().is_empty() {
        return finish_title(words.as_str(), false, "");
    }
    let first: char = words.as_str().get_char(0);
    let is_lower = foreign::is_lowercase(first);
    let upper = foreign::uppercase(first);
    finish_title(words.as_str(), is_lower, upper.as_str())
}

/// The first of some lines that gives a title: blank lines and headings do
/// not count.
pub open spec fn title_in_lines(lines: Seq<Seq<char>>) -> Option<Seq<char>>
    decreases lines.len(),
{
    if lines.len() == 0 {
        None
    } else {
        let line = text::trimmed(lines[0]);
        if line.len() > 0 && line[0] != '#' && title_of(line).len() > 0 {
            Some(title_of(line))
        } else {
            title_in_lines(lines.drop_first())
        }
    }
}

/// The title of a pull request: from the subject of the commit, from the
/// summary, or else from the issue.
pub open spec fn pr_title(
    subject: Seq<char>,
    summary: Seq<char>,
    owner: Seq<char>,
    repo: Seq<char>,
    number: int,
) -> Seq<char> {
    if subject.len() > 0 && title_of(subject).len() > 0 {
        title_of(subject)
    } else {
        match title_in_lines(text::lines_of(summary)) {
            Some(t) => t,
            None => "Fix "@ + repo_text(owner, repo) + "#"@ + decimal::decimal(number),
        }
    }
}

/// The title of a pull request. The subject is that of the last commit, empty
/// where there is none.
pub fn determine_pr_title(subject: &str, summary: &str, repo_ref: &RepoRef) -> (r: String)
    ensures
        r@ == pr_title(
            subject@,
            summary@,
            repo_ref.owner@,
            repo_ref.repo@,
            repo_ref.number as int,
        ),
{
    if !subject.is_empty() {
        let cleaned = clean_pr_title(subject);
        if !cleaned.as_str().is_empty() {
            return cleaned;
        }
    }
    let lines = text::lines(summary);
    let ghost all = text::texts(lines@);
    let mut i: usize = 0;
    assert(all.skip(0) == all);
    while i < lines.len()
        invariant
            i <= lines.len(),
            all == text::texts(lines@),
            all == text::lines_of(summary@),
            title_in_lines(all) == title_in_lines(all.skip(i as int)),
            !(subject@.len() > 0 && title_of(subject@).len() > 0),
        decreases lines.len() - i,
    {
        let line = text::trim(lines[i].as_str());
        assert(all.skip(i as int)[0] == lines@[i as int]@);
        if !line.is_empty() && line.get_char(0) != '#' {
            let cleaned = clean_pr_title(line);
            if !cleaned.as_str().is_empty() {
                return cleaned;
            }
        }
        assert(all.skip(i as int).drop_first() == all.skip(i + 1));
        i += 1;
    }
    let mut r = "Fix ".to_owned();
    r.append(repo_ref.slug().as_str());
    r.append("#");
    r.append(decimal::decimal_i64(repo_ref.number).as_str());
    r
}

/// The arguments with which git names the subject of the last commit.
pub fn subject_arguments(worktree: &str) -> (r: Vec<String>)
    ensures
        text::texts(r@) == seq!["-C"@, worktree@, "log"@, "-1"@, "--format=%s"@],
{
    let r = vec![
        "-C".to_owned(),
        worktree.to_owned(),
        "log".to_owned(),
        "-1".to_owned(),
        "--format=%s".to_owned(),
    ];
    assert(text::texts(r@) =~= seq!["-C"@, worktree@, "log"@, "-1"@, "--format=%s"@]);
    r
}

/// The subject of the last commit, from the answer of git; empty where git
/// failed.
pub fn read_commit_subject(run: &GitRun) -> (r: String)
    ensures
        r@ == pi::git_answer(*run),
{
    pi::read_branch(run)
}

// ---------------------------------------------------------------------------
// The pull request
// ---------------------------------------------------------------------------

/// What a pull request is made from.
#[derive(Debug, Clone)]
pub struct PrJob {
    pub owner: String,
    pub body: String,
    pub branch: String,
    pub base: String,
}

/// What a job stands for.
pub struct PrJobModel {
    pub owner: Seq<char>,
    pub body: Seq<char>,
    pub branch: Seq<char>,
    pub base: Seq<char>,
}

impl View for PrJob {
    type V = PrJobModel;

    open spec fn view(&self) -> PrJobModel {
        PrJobModel {
            owner: self.owner@,
            body: self.body@,
            branch: self.branch@,
            base: self.base@,
        }
    }
}

/// Where the opening of a pull request stands.
#[derive(Debug)]
pub enum PrState {
    /// The branch is being pushed.
    Pushing,
    /// The branch is pushed; the title is being looked for.
    Titling,
    /// The pull request is being opened with a title.
    Opening(String),
    /// There is one already; it is looked for by its owner and branch.
    ByOwner(String, GhProxyError),
    /// It is looked for by its branch.
    ByBranch(String, GhProxyError),
    /// The one that was found is being updated.
    Updating,
    /// Nothing more is to be done.
    Over,
}

/// What a state stands for.
pub enum PrStateModel {
    Pushing,
    Titling,
    Opening(Seq<char>),
    ByOwner(Seq<char>, host_tools::GhProxyErrorModel),
    ByBranch(Seq<char>, host_tools::GhProxyErrorModel),
    Updating,
    Over,
}

impl View for PrState {
    type V = PrStateModel;

    open spec fn view(&self) -> PrStateModel {
        match self {
            PrState::Pushing => PrStateModel::Pushing,
            PrState::Titling => PrStateModel::Titling,
            PrState::Opening(t) => PrStateModel::Opening(t@),
            PrState::ByOwner(t, e) => PrStateModel::ByOwner(t@, e@),
            PrState::ByBranch(t, e) => PrStateModel::ByBranch(t@, e@),
            PrState::Updating => PrStateModel::Updating,
            PrState::Over => PrStateModel::Over,
        }
    }
}

/// What is to be done next for a pull request.
#[derive(Debug)]
pub enum PrAction {
    /// Comment on the issue in place of a pull request, and end with a result.
    Comment { body: String, result: Json },
    /// Push the branch.
    Push,
    /// Find the title.
    FindTitle,
    /// Open the pull request.
    Open(Json),
    /// List the open pull requests of a head.
    List(String),
    /// Update a pull request.
    Update(i64, Json),
    /// End with a result.
    Finish(Json),
    /// End with an error.
    Fail(GhProxyError),
}

/// What an action stands for.
pub enum PrActionModel {
    Comment { body: Seq<char>, result: json::Tree },
    Push,
    FindTitle,
    Open(json::Tree),
    List(Seq<char>),
    Update(int, json::Tree),
    Finish(json::Tree),
    Fail(host_tools::GhProxyErrorModel),
}

impl View for PrAction {
    type V = PrActionModel;

    open spec fn view(&self) -> PrActionModel {
        match self {
            PrAction::Comment { body, result } => PrActionModel::Comment {
                body: body@,
                result: result@,
            },
            PrAction::Push => PrActionModel::Push,
            PrAction::FindTitle => PrActionModel::FindTitle,
            PrAction::Open(j) => PrActionModel::Open(j@),
            PrAction::List(s) => PrActionModel::List(s@),
            PrAction::Update(n, j) => PrActionModel::Update(*n as int, j@),
            PrAction::Finish(j) => PrActionModel::Finish(j@),
            PrAction::Fail(e) => PrActionModel::Fail(e@),
        }
    }
}

/// The text that a pull request is made from: the report, or else the summary.
pub open spec fn report_text(pr_body: Seq<char>, summary: Seq<char>) -> Seq<char> {
    if pr_body.len() > 0 {
        pr_body
    } else {
        summary
    }
}

/// The result of a comment in place of a pull request.
pub open spec fn fallback_result(reason: Seq<char>) -> json::Tree {
    json::Tree::Object(
        seq![
            ("action"@, json::Tree::Text("comment_fallback"@)),
            ("reason"@, json::Tree::Text(reason)),
        ],
    )
}

/// What is sent to open a pull request.
pub open spec fn open_payload(title: Seq<char>, job: PrJobModel) -> json::Tree {
    json::Tree::Object(
        seq![
            ("title"@, json::Tree::Text(title)),
            ("head"@, json::Tree::Text(job.branch)),
            ("base"@, json::Tree::Text(job.base)),
            ("body"@, json::Tree::Text(job.body)),
        ],
    )
}

/// What is sent to update a pull request.
pub open spec fn update_payload(title: Seq<char>, job: PrJobModel) -> json::Tree {
    json::Tree::Object(
        seq![("title"@, json::Tree::Text(title)), ("body"@, json::Tree::Text(job.body))],
    )
}

/// The result of an open pull request.
pub open spec fn opened_result(pr: json::Tree) -> json::Tree {
    json::Tree::Object(seq![("action"@, json::Tree::Text("open_pr"@)), ("pr"@, pr)])
}

/// The first step: nothing is pushed unless the report is complete and
/// there is a branch.
pub open spec fn first_step(body: Seq<char>, gated: bool, branch: Seq<char>) -> (
    PrStateModel,
    PrActionModel,
) {
    if !gated {
        (
            PrStateModel::Over,
            PrActionModel::Comment {
                body: comment_text(body),
                result: fallback_result("missing_required_headers"@),
            },
        )
    } else if branch.len() == 0 {
        (
            PrStateModel::Over,
            PrActionModel::Comment {
                body: comment_text(body),
                result: fallback_result("missing_branch"@),
            },
        )
    } else {
        (PrStateModel::Pushing, PrActionModel::Push)
    }
}

/// The refusal of GitHub to open a second pull request for a branch.
pub open spec fn is_duplicate_refusal(e: host_tools::GhProxyErrorModel) -> bool {
    match e {
        host_tools::GhProxyErrorModel::Status { status, body, .. } => status == 422
            && text::has_text(body, "already exists"@),
        _ => false,
    }
}

/// The head of a branch with its owner.
pub open spec fn owned_head(job: PrJobModel) -> Seq<char> {
    job.owner + ":"@ + job.branch
}

/// The step after a list of pull requests that is not empty: the first of them
/// is updated, or taken as it is where it has no number.
pub open spec fn take_existing(title: Seq<char>, job: PrJobModel, pr: json::Tree) -> (
    PrStateModel,
    PrActionModel,
) {
    match pr.get("number"@) {
        Some(json::Tree::Int(n)) => (
            PrStateModel::Updating,
            PrActionModel::Update(n, update_payload(title, job)),
        ),
        _ => (PrStateModel::Over, PrActionModel::Finish(opened_result(pr))),
    }
}

/// The step after the answer to a call.
pub open spec fn step_after(
    state: PrStateModel,
    job: PrJobModel,
    reply: Result<json::Tree, host_tools::GhProxyErrorModel>,
) -> (PrStateModel, PrActionModel) {
    match (state, reply) {
        (PrStateModel::Opening(title), Err(e)) => if is_duplicate_refusal(e) {
            (PrStateModel::ByOwner(title, e), PrActionModel::List(owned_head(job)))
        } else {
            (PrStateModel::Over, PrActionModel::Fail(e))
        },
        (_, Err(e)) => (PrStateModel::Over, PrActionModel::Fail(e)),
        (PrStateModel::Pushing, Ok(_)) => (PrStateModel::Titling, PrActionModel::FindTitle),
        (PrStateModel::Opening(_), Ok(pr)) => (
            PrStateModel::Over,
            PrActionModel::Finish(opened_result(pr)),
        ),
        (PrStateModel::ByOwner(title, refusal), Ok(pulls)) => match pulls.as_array() {
            Some(list) if list.len() > 0 => take_existing(title, job, list[0]),
            _ => (PrStateModel::ByBranch(title, refusal), PrActionModel::List(job.branch)),
        },
        (PrStateModel::ByBranch(title, refusal), Ok(pulls)) => match pulls.as_array() {
            Some(list) if list.len() > 0 => take_existing(title, job, list[0]),
            _ => (PrStateModel::Over, PrActionModel::Fail(refusal)),
        },
        (PrStateModel::Updating, Ok(pr)) => (
            PrStateModel::Over,
            PrActionModel::Finish(opened_result(pr)),
        ),
        (PrStateModel::Titling, Ok(_)) => (PrStateModel::Titling, PrActionModel::FindTitle),
        (PrStateModel::Over, Ok(pr)) => (PrStateModel::Over, PrActionModel::Finish(pr)),
    }
}

fn fallback(body: &str, reason: &str) -> (r: PrAction)
    ensures
        r@ == (PrActionModel::Comment {
            body: comment_text(body@),
            result: fallback_result(reason@),
        }),
{
    let members = vec![Json::text_member("action", "comment_fallback"), Json::text_member("reason", reason)];
    assert(json::members_of(members@) =~= fallback_result(reason@)->Object_0);
    PrAction::Comment { body: ensure_comment(body), result: Json::object(members) }
}

fn opened(pr: Json) -> (r: PrAction)
    ensures
        r@ == PrActionModel::Finish(opened_result(pr@)),
{
    let members = vec![Json::text_member("action", "open_pr"), ("pr".to_owned(), pr)];
    assert(json::members_of(members@) =~= opened_result(pr@)->Object_0);
    PrAction::Finish(Json::object(members))
}

/// The first step for a text; `gated` says whether it may become a pull request.
pub fn start_pr(body: &str, gated: bool, branch: &str) -> (r: (PrState, PrAction))
    ensures
        (r.0@, r.1@) == first_step(body@, gated, branch@),
{
    if !gated {
        return (PrState::Over, fallback(body, "missing_required_headers"));
    }
    if branch.is_empty() {
        return (PrState::Over, fallback(body, "missing_branch"));
    }
    (PrState::Pushing, PrAction::Push)
}

/// Starts the way to a pull request: what it is made from, and the first step.
pub fn open_pr_if_gated(outcome: &Outcome, repo_ref: &RepoRef, base_branch: &str) -> (r: (
    PrJob,
    PrState,
    PrAction,
))
    ensures
        r.0@ == (PrJobModel {
            owner: repo_ref.owner@,
            body: report_text(outcome@.pr_body, outcome@.summary),
            branch: outcome@.branch,
            base: base_branch@,
        }),
        (r.1@, r.2@) == first_step(
            r.0@.body,
            passes_gate(r.0@.body, repo_ref.number as int),
            r.0@.branch,
        ),
{
    let body = if !outcome.pr_body.as_str().is_empty() {
        outcome.pr_body.clone()
    } else {
        outcome.summary.clone()
    };
    let gated = has_required_headers(body.as_str(), repo_ref.number);
    let (state, action) = start_pr(body.as_str(), gated, outcome.branch.as_str());
    let job = PrJob {
        owner: repo_ref.owner.clone(),
        body,
        branch: outcome.branch.clone(),
        base: base_branch.to_owned(),
    };
    (job, state, action)
}

fn existing(title: &str, job: &PrJob, pr: &Json) -> (r: (PrState, PrAction))
    ensures
        (r.0@, r.1@) == take_existing(title@, job@, pr@),
{
    if let Some(Json::Int(n)) = pr.get("number") {
        let members = vec![Json::text_member("title", title), Json::text_member("body", job.body.as_str())];
        assert(json::members_of(members@) =~= update_payload(title@, job@)->Object_0);
        (PrState::Updating, PrAction::Update(*n, Json::object(members)))
    } else {
        (PrState::Over, opened(pr.copy()))
    }
}

fn refuses_duplicate(e: &GhProxyError) -> (r: bool)
    ensures
        r == is_duplicate_refusal(e@),
{
    match e {
        GhProxyError::Status { status, body, .. } => *status == 422 && text::contains(
            body.as_str(),
            "already exists",
        ),
        _ => false,
    }
}

impl PrState {
    /// Takes the title that was found.
    pub fn on_title(self, job: &PrJob, title: String) -> (r: (PrState, PrAction))
        requires
            self@ is Titling,
        ensures
            r.0@ == PrStateModel::Opening(title@),
            r.1@ == PrActionModel::Open(open_payload(title@, job@)),
    {
        let members = vec![
            Json::text_member("title", title.as_str()),
            Json::text_member("head", job.branch.as_str()),
            Json::text_member("base", job.base.as_str()),
            Json::text_member("body", job.body.as_str()),
        ];
        assert(json::members_of(members@) =~= open_payload(title@, job@)->Object_0);
        (PrState::Opening(title), PrAction::Open(Json::object(members)))
    }

    /// Takes the answer to a call.
    pub fn on_reply(self, job: &PrJob, reply: Result<Json, GhProxyError>) -> (r: (PrState, PrAction))
        ensures
            (r.0@, r.1@) == step_after(self@, job@, host_tools::result_view(reply)),
    {
        let value = match reply {
            Ok(value) => value,
            Err(e) => {
                return match self {
                    PrState::Opening(title) => if refuses_duplicate(&e) {
                        let mut head = job.owner.clone();
                        head.append(":");
                        head.append(job.branch.as_str());
                        (PrState::ByOwner(title, e), PrAction::List(head))
                    } else {
                        (PrState::Over, PrAction::Fail(e))
                    },
                    _ => (PrState::Over, PrAction::Fail(e)),
                };
            },
        };
        match self {
            PrState::Pushing => (PrState::Titling, PrAction::FindTitle),
            PrState::Titling => (PrState::Titling, PrAction::FindTitle),
            PrState::Opening(_) => (PrState::Over, opened(value)),
            PrState::ByOwner(title, refusal) => {
                if let Some(list) = value.as_array() {
                    if list.len() > 0 {
                        assert(json::trees(list@)[0] == list@[0]@);
                        return existing(title.as_str(), job, &list[0]);
                    }
                }
                (PrState::ByBranch(title, refusal), PrAction::List(job.branch.clone()))
            },
            PrState::ByBranch(title, refusal) => {
                if let Some(list) = value.as_array() {
                    if list.len() > 0 {
                        assert(json::trees(list@)[0] == list@[0]@);
                        return existing(title.as_str(), job, &list[0]);
                    }
                }
                (PrState::Over, PrAction::Fail(refusal))
            },
            PrState::Updating => (PrState::Over, opened(value)),
            PrState::Over => (PrState::Over, PrAction::Finish(value)),
        }
    }
}

// ---------------------------------------------------------------------------
// The write-back
// ---------------------------------------------------------------------------

/// What is written back.
#[derive(Debug)]
pub enum WriteBack {
    /// A pull request, where the report is complete.
    PullRequest,
    /// A comment on the issue, and the result of it.
    Comment { body: String, result: Json },
    /// Nothing.
    Nothing(Json),
}

/// What a write-back stands for.
pub enum WriteBackModel {
    PullRequest,
    Comment { body: Seq<char>, result: json::Tree },
    Nothing(json::Tree),
}

impl View for WriteBack {
    type V = WriteBackModel;

    open spec fn view(&self) -> WriteBackModel {
        match self {
            WriteBack::PullRequest => WriteBackModel::PullRequest,
            WriteBack::Comment { body, result } => WriteBackModel::Comment {
                body: body@,
                result: result@,
            },
            WriteBack::Nothing(j) => WriteBackModel::Nothing(j@),
        }
    }
}

/// The result of a write-back without a pull request.
pub open spec fn plain_result(action: Seq<char>, kind: TaskKind) -> json::Tree {
    json::Tree::Object(
        seq![("action"@, json::Tree::Text(action)), ("kind"@, json::Tree::Text(kind.name()))],
    )
}

/// What is written back for a task: a pull request for a fix, one comment for
/// an answer, a comment or an invalid issue, and nothing for a skipped event.
pub open spec fn write_back_of(outcome: adapters::OutcomeModel, kind: TaskKind) -> WriteBackModel {
    match kind {
        TaskKind::Fix => WriteBackModel::PullRequest,
        TaskKind::Skip => WriteBackModel::Nothing(plain_result("none"@, kind)),
        _ => WriteBackModel::Comment {
            body: comment_text(report_text(outcome.comment, outcome.summary)),
            result: plain_result("comment"@, kind),
        },
    }
}

/// Decides what is written back for a task.
pub fn write_back(outcome: &Outcome, kind: TaskKind) -> (r: WriteBack)
    ensures
        r@ == write_back_of(outcome@, kind),
{
    let action = match kind {
        TaskKind::Fix => return WriteBack::PullRequest,
        TaskKind::Skip => "none",
        _ => "comment",
    };
    let members = vec![
        Json::text_member("action", action),
        Json::text_member("kind", kind.to_text().as_str()),
    ];
    assert(json::members_of(members@) =~= plain_result(action@, kind)->Object_0);
    let result = Json::object(members);
    match kind {
        TaskKind::Skip => WriteBack::Nothing(result),
        _ => {
            let body = if !outcome.comment.as_str().is_empty() {
                outcome.comment.as_str()
            } else {
                outcome.summary.as_str()
            };
            WriteBack::Comment { body: ensure_comment(body), result }
        },
    }
}

/// A comment is never empty.
pub proof fn law_comment_is_not_empty(s: Seq<char>)
    ensures
        comment_text(s).len() > 0,
{
    reveal_strlit("_no response produced_");
}

/// Nothing is pushed for a report that is not complete, or without a
/// branch; such a report becomes a comment.
pub proof fn law_no_push_without_gate(body: Seq<char>, gated: bool, branch: Seq<char>)
    ensures
        first_step(body, gated, branch).1 is Push <==> gated && branch.len() > 0,
        !(first_step(body, gated, branch).1 is Push) ==> first_step(body, gated, branch).1 is Comment,
{
}

/// The title is looked for only after the branch was pushed, so that a pull
/// request is opened only for a branch that exists on the remote; one that
/// exists is updated only after GitHub refused to open a second one.
pub proof fn law_push_comes_before_opening(
    state: PrStateModel,
    job: PrJobModel,
    reply: Result<json::Tree, host_tools::GhProxyErrorModel>,
)
    ensures
        step_after(state, job, reply).0 is Titling ==> (state is Pushing || state is Titling)
            && reply is Ok,
        !(step_after(state, job, reply).0 is Opening),
        step_after(state, job, reply).1 is Update ==> state is ByOwner || state is ByBranch,
        step_after(state, job, reply).0 is ByOwner ==> state is Opening && (reply matches Err(
            e,
        ) && is_duplicate_refusal(e)),
        step_after(state, job, reply).0 is ByBranch ==> state is ByOwner,
{
}

/// A pull request carries the report, whether it is opened or updated.
pub proof fn law_pull_request_carries_the_report(title: Seq<char>, job: PrJobModel)
    ensures
        open_payload(title, job).text_at("body"@) == Some(job.body),
        open_payload(title, job).text_at("title"@) == Some(title),
        open_payload(title, job).text_at("head"@) == Some(job.branch),
        open_payload(title, job).text_at("base"@) == Some(job.base),
        update_payload(title, job).text_at("body"@) == Some(job.body),
        update_payload(title, job).text_at("title"@) == Some(title),
{
    reveal_strlit("title");
    reveal_strlit("head");
    reveal_strlit("base");
    reveal_strlit("body");
    reveal_with_fuel(json::member, 5);
    assert("title"@[0] != "head"@[0] && "title"@[0] != "body"@[0] && "title"@[0] != "base"@[0]);
    assert("head"@[0] != "body"@[0] && "head"@[0] != "base"@[0]);
    assert("base"@[1] != "body"@[1]);
}

/// The number of answers that a pull request can still wait for.
pub open spec fn answers_left(state: PrStateModel) -> nat {
    match state {
        PrStateModel::Pushing => 5,
        PrStateModel::Titling => 4,
        PrStateModel::Opening(_) => 4,
        PrStateModel::ByOwner(_, _) => 3,
        PrStateModel::ByBranch(_, _) => 2,
        PrStateModel::Updating => 1,
        PrStateModel::Over => 0,
    }
}

/// The way to a pull request comes to an end, whatever is answered: each answer
/// to a call leaves fewer to wait for, and an end is told by the action.
pub proof fn law_pull_request_ends(
    state: PrStateModel,
    job: PrJobModel,
    reply: Result<json::Tree, host_tools::GhProxyErrorModel>,
)
    requires
        !(state is Titling),
        !(state is Over),
    ensures
        ({
            let (next, action) = step_after(state, job, reply);
            &&& answers_left(next) < answers_left(state)
            &&& next is Over <==> action is Finish || action is Fail
        }),
{
}

/// A refusal that is not about a second pull request, and one after which none
/// is found, is handed on.
pub proof fn law_refusals_are_handed_on(
    title: Seq<char>,
    job: PrJobModel,
    e: host_tools::GhProxyErrorModel,
)
    ensures
        !is_duplicate_refusal(e) ==> step_after(PrStateModel::Opening(title), job, Err(e)).1
            == PrActionModel::Fail(e),
        step_after(
            PrStateModel::ByBranch(title, e),
            job,
            Ok(json::Tree::Array(Seq::empty())),
        ).1 == PrActionModel::Fail(e),
{
}

/// Nothing is written back exactly for a skipped event, and a pull request is
/// made exactly for a fix. Every other kind is answered with one comment: what
/// the run has to say, or its summary where it says nothing, without white space
/// around it. The result names the action and the kind.
pub proof fn law_every_kind_is_answered(outcome: adapters::OutcomeModel, kind: TaskKind)
    ensures
        ({
            let r = write_back_of(outcome, kind);
            let said = if outcome.comment.len() > 0 {
                outcome.comment
            } else {
                outcome.summary
            };
            &&& r is Nothing <==> kind == TaskKind::Skip
            &&& r is PullRequest <==> kind == TaskKind::Fix
            &&& r is Comment <==> kind == TaskKind::Answer || kind == TaskKind::Comment || kind
                == TaskKind::Invalid
            &&& r matches WriteBackModel::Comment { body, result } ==> {
                &&& text::trimmed(said).len() > 0 ==> body == text::trimmed(said)
                &&& text::trimmed(said).len() == 0 ==> body == "_no response produced_"@
                &&& result.text_at("action"@) == Some("comment"@)
                &&& kind == TaskKind::Answer ==> result.text_at("kind"@) == Some("answer"@)
                &&& kind == TaskKind::Comment ==> result.text_at("kind"@) == Some("comment"@)
                &&& kind == TaskKind::Invalid ==> result.text_at("kind"@) == Some("invalid"@)
            }
            &&& r matches WriteBackModel::Nothing(result) ==> result.text_at("action"@) == Some(
                "none"@,
            ) && result.text_at("kind"@) == Some("skip"@)
        }),
{
    reveal_strlit("action");
    reveal_strlit("kind");
    assert("action"@[0] != "kind"@[0]);
    reveal_with_fuel(json::member, 3);
}

/// A text may become a pull request for an issue exactly where each of the four
/// sections stands in it and it matches the expression that names the issue as
/// fixed, closed or resolved.
pub proof fn law_complete_reports(body: Seq<char>, number: int)
    ensures
        passes_gate(body, number) <==> {
            &&& text::has_text(body, "## Repro"@)
            &&& text::has_text(body, "## Cause"@)
            &&& text::has_text(body, "## Fix"@)
            &&& text::has_text(body, "## Verification"@)
            &&& foreign::regex_is_match_of(
                "(?i)(?:Fixes|Closes|Resolves)\\s+#"@ + decimal::decimal(number) + "\\b"@,
                body,
            ) == Some(true)
        },
{
}

/// A pull request is made from the report, or from the summary where there is no
/// report. Its branch is pushed exactly where the text is complete and there is
/// a branch; else the text itself is the comment, and the result says which of
/// the two was missing.
pub proof fn law_report_or_comment(
    pr_body: Seq<char>,
    summary: Seq<char>,
    complete: bool,
    branch: Seq<char>,
)
    ensures
        ({
            let body = report_text(pr_body, summary);
            let (state, action) = first_step(body, complete, branch);
            &&& pr_body.len() > 0 ==> body == pr_body
            &&& pr_body.len() == 0 ==> body == summary
            &&& complete && branch.len() > 0 ==> state is Pushing && action is Push
            &&& !complete || branch.len() == 0 ==> {
                &&& state is Over
                &&& action is Comment
                &&& text::trimmed(body).len() > 0 ==> action->Comment_body == text::trimmed(body)
                &&& text::trimmed(body).len() == 0 ==> action->Comment_body
                    == "_no response produced_"@
                &&& action->Comment_result.text_at("action"@) == Some("comment_fallback"@)
                &&& action->Comment_result.text_at("reason"@) == Some(
                    if !complete {
                        "missing_required_headers"@
                    } else {
                        "missing_branch"@
                    },
                )
            }
        }),
{
    reveal_strlit("action");
    reveal_strlit("reason");
    assert("action"@[0] != "reason"@[0]);
    reveal_with_fuel(json::member, 3);
}

/// The value is the result of an open pull request: it says so, and holds what
/// was answered about it.
pub open spec fn tells_of_pull_request(result: json::Tree, pr: json::Tree) -> bool {
    result.text_at("action"@) == Some("open_pr"@) && result.get("pr"@) == Some(pr)
}

proof fn lemma_opened_result(pr: json::Tree)
    ensures
        tells_of_pull_request(opened_result(pr), pr),
{
    reveal_strlit("action");
    reveal_strlit("pr");
    assert("action"@[0] != "pr"@[0]);
    reveal_with_fuel(json::member, 3);
}

/// A pushed branch gets a title, and an answer to the opening ends the way with
/// the pull request that was answered. A failure ends it with that failure,
/// unless GitHub refuses a second pull request for the branch: then the first
/// one is looked for by owner and branch.
pub proof fn law_answers_on_the_way_to_a_pull_request(
    title: Seq<char>,
    job: PrJobModel,
    refusal: host_tools::GhProxyErrorModel,
    pr: json::Tree,
    e: host_tools::GhProxyErrorModel,
)
    ensures
        step_after(PrStateModel::Pushing, job, Ok(pr)) == (
            PrStateModel::Titling,
            PrActionModel::FindTitle,
        ),
        ({
            let (state, action) = step_after(PrStateModel::Opening(title), job, Ok(pr));
            state is Over && action is Finish && tells_of_pull_request(action->Finish_0, pr)
        }),
        ({
            let (state, action) = step_after(PrStateModel::Updating, job, Ok(pr));
            state is Over && action is Finish && tells_of_pull_request(action->Finish_0, pr)
        }),
        ({
            let again = e matches host_tools::GhProxyErrorModel::Status { status, body, .. }
                && status == 422 && text::has_text(body, "already exists"@);
            let (state, action) = step_after(PrStateModel::Opening(title), job, Err(e));
            &&& again ==> state == PrStateModel::ByOwner(title, e) && action == PrActionModel::List(
                job.owner + ":"@ + job.branch,
            )
            &&& !again ==> state is Over && action == PrActionModel::Fail(e)
        }),
        step_after(PrStateModel::Pushing, job, Err(e)) == (
            PrStateModel::Over,
            PrActionModel::Fail(e),
        ),
        step_after(PrStateModel::ByOwner(title, refusal), job, Err(e)) == (
            PrStateModel::Over,
            PrActionModel::Fail(e),
        ),
        step_after(PrStateModel::ByBranch(title, refusal), job, Err(e)) == (
            PrStateModel::Over,
            PrActionModel::Fail(e),
        ),
        step_after(PrStateModel::Updating, job, Err(e)) == (
            PrStateModel::Over,
            PrActionModel::Fail(e),
        ),
{
    lemma_opened_result(pr);
}

/// The first pull request of a list is updated with the title and the report; one
/// without a number is taken as it is. Where none is found by owner and branch it
/// is looked for by the branch alone, and where none is found then, the refusal
/// is the failure.
pub proof fn law_existing_pull_request_is_updated(
    title: Seq<char>,
    job: PrJobModel,
    refusal: host_tools::GhProxyErrorModel,
    pulls: json::Tree,
)
    ensures
        ({
            let found = pulls is Array && pulls->Array_0.len() > 0;
            let pr = pulls->Array_0[0];
            let by_owner = step_after(PrStateModel::ByOwner(title, refusal), job, Ok(pulls));
            let by_branch = step_after(PrStateModel::ByBranch(title, refusal), job, Ok(pulls));
            &&& found ==> by_owner == by_branch
            &&& found && pr.get("number"@) is Some && pr.get("number"@)->0 is Int ==> {
                &&& by_owner.0 is Updating
                &&& by_owner.1 is Update
                &&& by_owner.1->Update_0 == pr.get("number"@)->0->Int_0
                &&& by_owner.1->Update_1.text_at("title"@) == Some(title)
                &&& by_owner.1->Update_1.text_at("body"@) == Some(job.body)
            }
            &&& found && !(pr.get("number"@) is Some && pr.get("number"@)->0 is Int) ==> {
                &&& by_owner.0 is Over
                &&& by_owner.1 is Finish
                &&& tells_of_pull_request(by_owner.1->Finish_0, pr)
            }
            &&& !found ==> by_owner == (
                PrStateModel::ByBranch(title, refusal),
                PrActionModel::List(job.branch),
            )
            &&& !found ==> by_branch == (PrStateModel::Over, PrActionModel::Fail(refusal))
        }),
{
    law_pull_request_carries_the_report(title, job);
    if pulls is Array && pulls->Array_0.len() > 0 {
        lemma_opened_result(pulls->Array_0[0]);
    }
}

/// The title of a pull request is that of the last commit, or else that of the
/// first line of the summary that gives one, or else names the issue.
pub proof fn law_title_of_a_pull_request(
    subject: Seq<char>,
    line: Seq<char>,
    rest: Seq<char>,
    owner: Seq<char>,
    repo: Seq<char>,
    number: int,
)
    requires
        !line.contains('\n'),
        line.len() == 0 || line.last() != '\r',
    ensures
        ({
            let summary = line + "\n"@ + rest;
            let words = text::trimmed(line);
            let heading = words.len() > 0 && words[0] == '#';
            let named = subject.len() > 0 && title_of(subject).len() > 0;
            &&& named ==> pr_title(subject, summary, owner, repo, number) == title_of(subject)
            &&& !named && words.len() > 0 && !heading && title_of(words).len() > 0 ==> pr_title(
                subject,
                summary,
                owner,
                repo,
                number,
            ) == title_of(words)
            &&& !named && (words.len() == 0 || heading || title_of(words).len() == 0) ==> pr_title(
                subject,
                summary,
                owner,
                repo,
                number,
            ) == pr_title(subject, rest, owner, repo, number)
            &&& !named ==> pr_title(subject, Seq::empty(), owner, repo, number) == "Fix "@ + owner
                + "/"@ + repo + "#"@ + decimal::decimal(number)
        }),
{
    let summary = line + "\n"@ + rest;
    text::law_lines(line, rest);
    let all = text::lines_of(summary);
    assert(all =~= seq![line] + text::lines_of(rest));
    assert(all.drop_first() =~= text::lines_of(rest));
    assert(all[0] == line);
    assert("Fix "@ + (owner + "/"@ + repo) + "#"@ + decimal::decimal(number) =~= "Fix "@ + owner
        + "/"@ + repo + "#"@ + decimal::decimal(number));
}

/// The words of a title are what is left once white space and the marks of a
/// heading are taken off before it, then the prefix of a conventional commit,
/// and white space and punctuation behind it.
pub proof fn law_words_of_a_title(
    before: Seq<char>,
    marks: Seq<char>,
    space: Seq<char>,
    heading: Seq<char>,
    words: Seq<char>,
    ends: Seq<char>,
    after: Seq<char>,
)
    requires
        forall|i: int| 0 <= i < before.len() ==> text::is_white(#[trigger] before[i]),
        forall|i: int| 0 <= i < marks.len() ==> marks[i] == '#',
        forall|i: int| 0 <= i < space.len() ==> text::is_white(#[trigger] space[i]),
        forall|i: int| 0 <= i < after.len() ==> text::is_white(#[trigger] after[i]),
        forall|i: int| 0 <= i < ends.len() ==> text::CharSet::Closing.has(#[trigger] ends[i]),
        marks.len() == 0 ==> space.len() == 0,
        heading.len() > 0,
        !text::is_white(heading[0]),
        heading[0] != '#',
        !text::is_white(heading.last()),
        foreign::without_prefix(heading) == words + ends,
        words.len() > 0,
        !text::is_white(words[0]),
        !text::is_white(words.last()),
        !text::CharSet::Closing.has(words.last()),
    ensures
        title_words(before + (marks + space + heading) + after) == words,
{
    let none = Seq::<char>::empty();
    let line = marks + space + heading;
    assert(!text::is_white(line[0])) by {
        if marks.len() > 0 {
            assert(line[0] == marks[0]);
        } else {
            assert(line[0] == heading[0]);
        }
    }
    assert(line.last() == heading.last());
    text::law_trimming_takes_white_space_off(before, line, after);
    text::law_drop_front(line, text::CharSet::Hash);
    let dropped = text::drop_front(line, text::CharSet::Hash);
    let from = line.len() - dropped.len();
    let rest = space + heading;
    assert(rest[0] != '#') by {
        if space.len() > 0 {
            assert(rest[0] == space[0]);
        } else {
            assert(rest[0] == heading[0]);
        }
    }
    assert(line[marks.len() as int] == rest[0]);
    assert(from == marks.len()) by {
        if from < marks.len() {
            assert(line[from] == marks[from]);
            assert(dropped[0] == line[from]);
        }
    }
    assert(dropped =~= space + heading + none);
    text::law_trimming_takes_white_space_off(space, heading, none);
    let left = words + ends;
    assert(left[0] == words[0]);
    assert(!text::is_white(left.last())) by {
        if ends.len() > 0 {
            assert(left.last() == ends[ends.len() - 1]);
        } else {
            assert(left.last() == words.last());
        }
    }
    assert(left =~= none + left + none);
    text::law_trimming_takes_white_space_off(none, left, none);
    text::law_drop_back(left, text::CharSet::Closing);
    let kept = text::drop_back(left, text::CharSet::Closing);
    assert(kept.len() == words.len()) by {
        if kept.len() < words.len() {
            assert(left[words.len() - 1] == words.last());
        }
        if kept.len() > words.len() {
            assert(kept.last() == left[kept.len() - 1]);
            assert(left[kept.len() - 1] == ends[kept.len() - 1 - words.len()]);
        }
    }
    assert(kept =~= words);
}

/// A title without a colon has no prefix to be taken off.
pub proof fn law_no_prefix_without_a_colon(s: Seq<char>)
    requires
        !s.contains(':'),
    ensures
        foreign::without_prefix(s) == s,
{
    lemma_prefix_needs_a_colon(s);
}

proof fn lemma_prefix_needs_a_colon(s: Seq<char>)
    requires
        !s.contains(':'),
    ensures
        foreign::without_prefix(s) == s,
{
    let n = foreign::letter_run(s);
    lemma_letter_run(s);
    let a = s.skip(n as int);
    let b = foreign::after_scope(a);
    let c = foreign::after_mark(b);
    text::lemma_first_index(a, ')');
    if c.len() > 0 && c[0] == ':' {
        assert(b.contains(':')) by {
            if b[0] == '!' {
                assert(b[1] == ':');
            } else {
                assert(b[0] == ':');
            }
        }
        let i = choose|i: int| 0 <= i < b.len() && b[i] == ':';
        if b == a {
            assert(s[n + i] == ':');
        } else {
            let close = text::first_index(a, ')');
            assert(a[close + 1 + i] == ':');
            assert(s[n + close + 1 + i] == ':');
        }
    }
}

proof fn lemma_letter_run(s: Seq<char>)
    ensures
        foreign::letter_run(s) <= s.len(),
        forall|i: int|
            0 <= i < foreign::letter_run(s) ==> foreign::is_folded_letter(#[trigger] s[i]),
        foreign::letter_run(s) < s.len() ==> !foreign::is_folded_letter(
            s[foreign::letter_run(s) as int],
        ),
    decreases s.len(),
{
    if s.len() > 0 && foreign::is_folded_letter(s[0]) {
        let rest = s.drop_first();
        lemma_letter_run(rest);
        assert forall|i: int|
            0 <= i < foreign::letter_run(s) implies foreign::is_folded_letter(#[trigger] s[i]) by {
            if i > 0 {
                assert(s[i] == rest[i - 1]);
            }
        }
        if foreign::letter_run(s) < s.len() {
            assert(s[foreign::letter_run(s) as int] == rest[foreign::letter_run(rest) as int]);
        }
    }
}

/// The prefix of a conventional commit is taken off: letters, a scope in
/// brackets or none, an exclamation mark or none, a colon and white space.
pub proof fn law_conventional_prefix_is_taken_off(
    kind: Seq<char>,
    scope: Seq<char>,
    breaking: bool,
    space: Seq<char>,
    words: Seq<char>,
)
    requires
        kind.len() > 0,
        forall|i: int| 0 <= i < kind.len() ==> 'a' <= #[trigger] kind[i] <= 'z',
        scope.len() == 0 || (scope.len() > 2 && scope[0] == '(' && scope.last() == ')' && forall|
            i: int,
        |
            0 < i < scope.len() - 1 ==> scope[i] != ')'),
        forall|i: int| 0 <= i < space.len() ==> text::is_white(#[trigger] space[i]),
        words.len() > 0 ==> !text::is_white(words[0]),
    ensures
        foreign::without_prefix(
            kind + scope + (if breaking {
                seq!['!']
            } else {
                Seq::empty()
            }) + seq![':'] + space + words,
        ) == words,
{
    let mark = if breaking {
        seq!['!']
    } else {
        Seq::empty()
    };
    let tail = space + words;
    let colon = seq![':'] + tail;
    let marked = mark + colon;
    let scoped = scope + marked;
    let s = kind + scope + mark + seq![':'] + space + words;
    assert(s =~= kind + scoped);
    lemma_letter_run(s);
    let n = foreign::letter_run(s);
    assert(n == kind.len()) by {
        if n < kind.len() {
            assert(s[n as int] == kind[n as int]);
        }
        if n > kind.len() {
            assert(foreign::is_folded_letter(s[kind.len() as int]));
            assert(s[kind.len() as int] == scoped[0]);
        }
    }
    assert(s.skip(n as int) =~= scoped);
    assert(foreign::after_scope(scoped) == marked) by {
        text::lemma_first_index(scoped, ')');
        if scope.len() > 0 {
            let close = text::first_index(scoped, ')');
            assert(scoped[scope.len() - 1] == ')');
            assert(close == scope.len() - 1) by {
                if close < scope.len() - 1 {
                    assert(scoped[close] == scope[close]);
                }
            }
            assert(scoped.skip(close + 1) =~= marked);
        } else {
            assert(scoped =~= marked);
        }
    }
    assert(foreign::after_mark(marked) == colon) by {
        if breaking {
            assert(marked.drop_first() =~= colon);
        } else {
            assert(marked =~= colon);
        }
    }
    assert(colon.drop_first() =~= tail);
    text::law_drop_front(tail, text::CharSet::White);
    let dropped = text::drop_front(tail, text::CharSet::White);
    let from = tail.len() - dropped.len();
    assert(from == space.len()) by {
        if from < space.len() {
            assert(tail[from] == space[from]);
            assert(dropped[0] == tail[from]);
        }
        if from > space.len() {
            assert(tail[space.len() as int] == words[0]);
        }
    }
    assert(dropped =~= words);
}

/// A title begins with a capital and is cut off where it does not fit.
pub proof fn law_title_is_capitalized(raw: Seq<char>, words: Seq<char>, upper: Seq<char>)
    requires
        words.len() > 0,
    ensures
        title_words(raw) == words && foreign::is_lowercase_of(words[0]) ==> title_of(raw)
            == truncated(foreign::uppercase_of(words[0]) + words.skip(1), 120),
        title_words(raw) == words && !foreign::is_lowercase_of(words[0]) ==> title_of(raw)
            == truncated(words, 120),
        capitalized(words, true, upper) == upper + words.skip(1),
        capitalized(words, false, upper) == words,
        vstd::utf8::encode_utf8(words).len() <= 120 ==> truncated(words, 120) == words,
{
    assert(words.drop_first() =~= words.skip(1));
    if vstd::utf8::encode_utf8(words).len() <= 120 {
        law_truncation_fits(words, 120);
        lemma_shorter_encoding(words, fitting(words, 120) + 1);
        assert(words.take(words.len() as int) =~= words);
    }
}

proof fn lemma_shorter_encoding(s: Seq<char>, k: int)
    requires
        0 <= k,
    ensures
        k <= s.len() ==> vstd::utf8::encode_utf8(s.take(k)).len() <= vstd::utf8::encode_utf8(
            s,
        ).len(),
    decreases s.len(),
{
    if 0 < k <= s.len() {
        lemma_encoding_grows(s, k);
        lemma_encoding_grows(s, s.len() as int);
        assert(s.take(s.len() as int) =~= s);
        assert(s.drop_first().take(s.len() - 1) =~= s.drop_first());
        lemma_shorter_encoding(s.drop_first(), k - 1);
    } else if k == 0 {
        assert(s.take(0).len() == 0);
    }
}

/// What is sent for a pull request, and what is told of a write-back: these
/// members and no others.
pub proof fn law_payloads_and_results(
    title: Seq<char>,
    job: PrJobModel,
    pr: json::Tree,
    word: Seq<char>,
    kind: TaskKind,
)
    ensures
        open_payload(title, job) == json::Tree::Object(
            seq![
                ("title"@, json::Tree::Text(title)),
                ("head"@, json::Tree::Text(job.branch)),
                ("base"@, json::Tree::Text(job.base)),
                ("body"@, json::Tree::Text(job.body)),
            ],
        ),
        ({
            let pulls = json::Tree::Array(seq![pr]);
            let found = step_after(
                PrStateModel::ByOwner(title, host_tools::GhProxyErrorModel::Request(word)),
                job,
                Ok(pulls),
            );
            found.1 is Update ==> found.1->Update_1 == json::Tree::Object(
                seq![("title"@, json::Tree::Text(title)), ("body"@, json::Tree::Text(job.body))],
            )
        }),
        opened_result(pr) == json::Tree::Object(
            seq![("action"@, json::Tree::Text("open_pr"@)), ("pr"@, pr)],
        ),
        fallback_result(word) == json::Tree::Object(
            seq![
                ("action"@, json::Tree::Text("comment_fallback"@)),
                ("reason"@, json::Tree::Text(word)),
            ],
        ),
        plain_result(word, kind) == json::Tree::Object(
            seq![("action"@, json::Tree::Text(word)), ("kind"@, json::Tree::Text(kind.name()))],
        ),
        repo_text(title, word) == title + "/"@ + word,
{
    assert(seq![pr][0] == pr);
}

} // verus!
