//! Which webhook events call for work, and what the engine is asked to do.

use vstd::prelude::*;
use vstd::string::*;

use crate::decimal;
use crate::foreign;
use crate::json;
use crate::json::Json;
use crate::text;

verus! {

/// What an event asks for.
#[derive(Debug, Clone, Copy, PartialEq, Eq, Structural)]
pub enum TaskKind {
    Fix,
    Answer,
    Comment,
    Invalid,
    Skip,
}

impl TaskKind {
    pub open spec fn name(self) -> Seq<char> {
        match self {
            TaskKind::Fix => "fix"@,
            TaskKind::Answer => "answer"@,
            TaskKind::Comment => "comment"@,
            TaskKind::Invalid => "invalid"@,
            TaskKind::Skip => "skip"@,
        }
    }

    /// The kind as it is written in records.
    pub fn to_text(&self) -> (r: String)
        ensures
            r@ == self.name(),
    {
        let s = match self {
            TaskKind::Fix => "fix",
            TaskKind::Answer => "answer",
            TaskKind::Comment => "comment",
            TaskKind::Invalid => "invalid",
            TaskKind::Skip => "skip",
        };
        s.to_owned()
    }
}

/// A piece of work for the engine.
#[derive(Debug, Clone)]
pub struct Task {
    pub kind: TaskKind,
    pub prompt: String,
    pub pr_body: String,
    pub comment: String,
    pub labels: Vec<String>,
    pub autoclose: bool,
}

/// What a task stands for.
pub struct TaskModel {
    pub kind: TaskKind,
    pub prompt: Seq<char>,
    pub pr_body: Seq<char>,
    pub comment: Seq<char>,
    pub labels: Seq<Seq<char>>,
    pub autoclose: bool,
}

impl View for Task {
    type V = TaskModel;

    open spec fn view(&self) -> TaskModel {
        TaskModel {
            kind: self.kind,
            prompt: self.prompt@,
            pr_body: self.pr_body@,
            comment: self.comment@,
            labels: text::texts(self.labels@),
            autoclose: self.autoclose,
        }
    }
}

pub const FIX_INTRO: &'static str = "You are triaging a bug report in this repository. Your job is to \
    actually fix it, not just analyze it. Follow these steps IN ORDER and \
    do NOT stop until you reach step 6.\n\nTitle: ";

pub const FIX_STEPS: &'static str = "\n\n\
    1. REPRODUCE: run the app/tests or write a small script to confirm the bug. Show the actual failure.\n\
    2. FIND THE CAUSE: read the relevant source and pinpoint the exact line/condition responsible.\n\
    3. FIX: EDIT the source file(s) with the edit/write tools. Make a small, targeted change. You MUST change the code - analysis alone is not a fix.\n\
    4. VERIFY: run the tests (or repro) and show they now pass.\n\
    5. COMMIT: stage and commit your changes with a clear message. This is required; a fix without a commit is incomplete.\n\
    6. REPORT: produce a final message with exactly these sections:\n";

pub const FIX_CLOSING: &'static str = ".\n\n\
    IMPORTANT: Do not merely explore and summarize. You must make a code \
    change and commit it. If there is genuinely nothing to fix, say so \
    explicitly in the ## Cause section and do not fabricate a fix.";

pub open spec fn fix_prompt_text(title: Seq<char>, body: Seq<char>, number: Option<int>) -> Seq<
    char,
> {
    FIX_INTRO@ + title + "\n\nBody:\n"@ + body + FIX_STEPS@ + "## Repro"@ + "\n"@ + "## Cause"@
        + "\n"@ + "## Fix"@ + "\n"@ + "## Verification"@ + "\nand end with a line: "@
        + fix_target_text(number) + FIX_CLOSING@
}

/// The line that links a pull request to its issue.
pub open spec fn fix_target_text(number: Option<int>) -> Seq<char> {
    match number {
        Some(n) => "Fixes #"@ + decimal::decimal(n),
        None => "Fixes #<issue-number>"@,
    }
}

pub open spec fn opt_int(n: Option<i64>) -> Option<int> {
    match n {
        Some(n) => Some(n as int),
        None => None,
    }
}

/// The prompt for a bug report.
pub fn fix_prompt(title: &str, body: &str, number: Option<i64>) -> (r: String)
    ensures
        r@ == fix_prompt_text(title@, body@, opt_int(number)),
{
    let target = match number {
        Some(n) => "Fixes #".to_owned().concat(decimal::decimal_i64(n).as_str()),
        None => "Fixes #<issue-number>".to_owned(),
    };
    let mut r = FIX_INTRO.to_owned();
    r.append(title);
    r.append("\n\nBody:\n");
    r.append(body);
    r.append(FIX_STEPS);
    r.append("## Repro");
    r.append("\n");
    r.append("## Cause");
    r.append("\n");
    r.append("## Fix");
    r.append("\n");
    r.append("## Verification");
    r.append("\nand end with a line: ");
    r.append(target.as_str());
    r.append(FIX_CLOSING);
    r
}

pub const QUESTION_INTRO: &'static str = "A user asked a question in this repository. Answer helpfully and \
    concisely, citing the relevant code where possible.\nQuestion: ";

pub const QUESTION_CLOSING: &'static str = "\n\nProduce your answer as a single comment below.";

pub const INVALID_INTRO: &'static str = "This issue was marked invalid. Briefly (1-2 sentences) explain why \
    and what the reporter should do instead.\nTitle: ";

pub const DUPLICATE_INTRO: &'static str = "This issue was marked duplicate. Briefly point the reporter to the \
    existing (duplicate) thread.\nTitle: ";

pub const ENHANCEMENT_INTRO: &'static str = "This is a feature/proposal. Acknowledge it and summarize the request, \
    note feasibility or a plan, without making changes.\nTitle: ";

pub const ENHANCEMENT_CLOSING: &'static str = "\n\nProduce your response as a single comment below.";

/// The title and the body of a report between two fixed texts.
pub open spec fn framed(intro: Seq<char>, title: Seq<char>, body: Seq<char>, closing: Seq<char>) -> Seq<
    char,
> {
    intro + title + "\n\n"@ + body + closing
}

fn frame(intro: &str, title: &str, body: &str, closing: &str) -> (r: String)
    ensures
        r@ == framed(intro@, title@, body@, closing@),
{
    let mut r = intro.to_owned();
    r.append(title);
    r.append("\n\n");
    r.append(body);
    r.append(closing);
    r
}

/// The prompt for a question.
pub fn question_prompt(title: &str, body: &str) -> (r: String)
    ensures
        r@ == framed(QUESTION_INTRO@, title@, body@, QUESTION_CLOSING@),
{
    frame(QUESTION_INTRO, title, body, QUESTION_CLOSING)
}

/// The prompt for an issue that was marked invalid.
pub fn invalid_prompt(title: &str, body: &str) -> (r: String)
    ensures
        r@ == framed(INVALID_INTRO@, title@, body@, ""@),
{
    frame(INVALID_INTRO, title, body, "")
}

/// The prompt for an issue that was marked a duplicate.
pub fn duplicate_prompt(title: &str, body: &str) -> (r: String)
    ensures
        r@ == framed(DUPLICATE_INTRO@, title@, body@, ""@),
{
    frame(DUPLICATE_INTRO, title, body, "")
}

/// The prompt for a proposal.
pub fn enhancement_prompt(title: &str, body: &str) -> (r: String)
    ensures
        r@ == framed(ENHANCEMENT_INTRO@, title@, body@, ENHANCEMENT_CLOSING@),
{
    frame(ENHANCEMENT_INTRO, title, body, ENHANCEMENT_CLOSING)
}

// ---------------------------------------------------------------------------
// Routing
// ---------------------------------------------------------------------------

/// Events that call for work.
pub open spec fn supported(event_type: Seq<char>, action: Option<Seq<char>>) -> bool {
    match action {
        None => false,
        Some(a) => {
            ||| event_type == "issues"@ && (a == "opened"@ || a == "edited"@ || a == "labeled"@ || a
                == "unlabeled"@ || a == "reopened"@)
            ||| event_type == "issue_comment"@ && a == "created"@
            ||| event_type == "pull_request_review"@ && a == "submitted"@
        },
    }
}

fn is_supported_event_action(event_type: &str, action: Option<&str>) -> (r: bool)
    ensures
        r == supported(event_type@, json::text_of(action)),
{
    match action {
        None => false,
        Some(a) => {
            (text::same_text(event_type, "issues") && (text::same_text(a, "opened")
                || text::same_text(a, "edited") || text::same_text(a, "labeled")
                || text::same_text(a, "unlabeled") || text::same_text(a, "reopened"))) || (
            text::same_text(event_type, "issue_comment") && text::same_text(a, "created")) || (
            text::same_text(event_type, "pull_request_review") && text::same_text(a, "submitted"))
        },
    }
}

/// The issue or the pull request that an event is about.
pub open spec fn subject(payload: json::Tree) -> Option<json::Tree> {
    match payload.get("issue"@) {
        Some(t) => Some(t),
        None => payload.get("pull_request"@),
    }
}

fn find_subject(payload: &Json) -> (r: Option<&Json>)
    ensures
        json::tree_of(r) == subject(payload@),
{
    match payload.get("issue") {
        Some(j) => Some(j),
        None => payload.get("pull_request"),
    }
}

/// A text of the subject, empty where there is none.
pub open spec fn subject_text(payload: json::Tree, name: Seq<char>) -> Seq<char> {
    match subject(payload) {
        Some(t) => match t.text_at(name) {
            Some(s) => s,
            None => ""@,
        },
        None => ""@,
    }
}

fn find_subject_text<'a>(payload: &'a Json, name: &str) -> (r: &'a str)
    ensures
        r@ == subject_text(payload@, name@),
{
    match find_subject(payload) {
        Some(j) => match j.text_at(name) {
            Some(s) => s,
            None => "",
        },
        None => "",
    }
}

/// The number of the subject.
pub open spec fn subject_number(payload: json::Tree) -> Option<int> {
    match subject(payload) {
        Some(t) => match t.get("number"@) {
            Some(n) => n.as_i64(),
            None => None,
        },
        None => None,
    }
}

fn find_subject_number(payload: &Json) -> (r: Option<i64>)
    ensures
        opt_int(r) == subject_number(payload@),
{
    match find_subject(payload) {
        Some(j) => match j.get("number") {
            Some(n) => n.as_i64(),
            None => None,
        },
        None => None,
    }
}

/// One of `items` has the given name.
pub open spec fn some_named(items: Seq<json::Tree>, name: Seq<char>) -> bool {
    exists|i: int| 0 <= i < items.len() && (#[trigger] items[i]).text_at("name"@) == Some(name)
}

/// The subject carries the label with the given name.
pub open spec fn has_label(payload: json::Tree, name: Seq<char>) -> bool {
    match subject(payload) {
        Some(t) => match t.get("labels"@) {
            Some(l) => match l.as_array() {
                Some(items) => some_named(items, name),
                None => false,
            },
            None => false,
        },
        None => false,
    }
}

fn find_label(payload: &Json, name: &str) -> (r: bool)
    ensures
        r == has_label(payload@, name@),
{
    let items = match find_subject(payload) {
        Some(j) => match j.get("labels") {
            Some(l) => match l.as_array() {
                Some(items) => items,
                None => return false,
            },
            None => return false,
        },
        None => return false,
    };
    let ghost all = json::trees(items@);
    let mut i: usize = 0;
    while i < items.len()
        invariant
            i <= items.len(),
            all == json::trees(items@),
            has_label(payload@, name@) == some_named(all, name@),
            forall|k: int| 0 <= k < i ==> (#[trigger] all[k]).text_at("name"@) != Some(name@),
        decreases items.len() - i,
    {
        assert(all[i as int] == items@[i as int]@);
        if let Some(s) = items[i].text_at("name") {
            if text::same_text(s, name) {
                return true;
            }
        }
        i += 1;
    }
    false
}

/// One of `words` stands in `s`.
pub open spec fn mentions(s: Seq<char>, words: Seq<Seq<char>>) -> bool {
    exists|i: int| 0 <= i < words.len() && text::has_text(s, #[trigger] words[i])
}

fn has_any(s: &str, words: &Vec<&str>) -> (r: bool)
    ensures
        r == mentions(s@, words@.map_values(|w: &str| w@)),
{
    let ghost all = words@.map_values(|w: &str| w@);
    let mut i: usize = 0;
    while i < words.len()
        invariant
            i <= words.len(),
            all == words@.map_values(|w: &str| w@),
            forall|k: int| 0 <= k < i ==> !text::has_text(s@, #[trigger] all[k]),
        decreases words.len() - i,
    {
        assert(all[i as int] == words@[i as int]@);
        if text::contains(s, words[i]) {
            return true;
        }
        i += 1;
    }
    false
}

pub open spec fn bug_words() -> Seq<Seq<char>> {
    seq![
        "bug"@,
        "error"@,
        "crash"@,
        "fail"@,
        "broken"@,
        "exception"@,
        "regression"@,
    ]
}

pub open spec fn doc_words() -> Seq<Seq<char>> {
    seq!["documentation"@, "doc"@, "typo"@, "readme"@, "docs"@]
}

pub open spec fn feature_words() -> Seq<Seq<char>> {
    seq!["feature"@, "enhancement"@, "proposal"@, "suggestion"@, "request"@]
}

/// The way an event takes.
#[derive(Debug, Clone, Copy, PartialEq, Eq, Structural)]
pub enum Route {
    Question,
    Invalid,
    Duplicate,
    Bug,
    Documentation,
    Enhancement,
    Unmatched,
}

/// The way of an event whose title and body read `lowered` in lower case.
/// Labels and a question mark in the title come first, then the words of a
/// bug report, of documentation and of a proposal, in this order.
pub open spec fn route_of(payload: json::Tree, lowered: Seq<char>) -> Route {
    if has_label(payload, "question"@) || subject_text(payload, "title"@).contains('?') {
        Route::Question
    } else if has_label(payload, "invalid"@) {
        Route::Invalid
    } else if has_label(payload, "duplicate"@) {
        Route::Duplicate
    } else if mentions(lowered, bug_words()) {
        Route::Bug
    } else if mentions(lowered, doc_words()) {
        Route::Documentation
    } else if mentions(lowered, feature_words()) {
        Route::Enhancement
    } else {
        Route::Unmatched
    }
}

/// Finds the way of an event.
pub fn choose_route(payload: &Json, lowered: &str) -> (r: Route)
    ensures
        r == route_of(payload@, lowered@),
{
    if find_label(payload, "question") || text::contains_char(
        find_subject_text(payload, "title"),
        '?',
    ) {
        return Route::Question;
    }
    if find_label(payload, "invalid") {
        return Route::Invalid;
    }
    if find_label(payload, "duplicate") {
        return Route::Duplicate;
    }
    let bug = vec!["bug", "error", "crash", "fail", "broken", "exception", "regression"];
    assert(bug@.map_values(|w: &str| w@) =~= bug_words());
    if has_any(lowered, &bug) {
        return Route::Bug;
    }
    let doc = vec!["documentation", "doc", "typo", "readme", "docs"];
    assert(doc@.map_values(|w: &str| w@) =~= doc_words());
    if has_any(lowered, &doc) {
        return Route::Documentation;
    }
    let feature = vec!["feature", "enhancement", "proposal", "suggestion", "request"];
    assert(feature@.map_values(|w: &str| w@) =~= feature_words());
    if has_any(lowered, &feature) {
        return Route::Enhancement;
    }
    Route::Unmatched
}

/// What a follow-up says: the text of the comment or of the review.
pub open spec fn follow_up(event_type: Seq<char>, payload: json::Tree) -> Option<Seq<char>> {
    if event_type == "issue_comment"@ {
        payload.text_at2("comment"@, "body"@)
    } else if event_type == "pull_request_review"@ {
        payload.text_at2("review"@, "body"@)
    } else {
        None
    }
}

fn find_follow_up<'a>(event_type: &str, payload: &'a Json) -> (r: Option<&'a str>)
    ensures
        json::text_of(r) == follow_up(event_type@, payload@),
{
    if text::same_text(event_type, "issue_comment") {
        payload.text_at2("comment", "body")
    } else if text::same_text(event_type, "pull_request_review") {
        payload.text_at2("review", "body")
    } else {
        None
    }
}

/// The report as the engine is to read it: the body of the subject, and what
/// a follow-up adds to it.
pub open spec fn report_body(event_type: Seq<char>, payload: json::Tree) -> Seq<char> {
    let body = subject_text(payload, "body"@);
    match follow_up(event_type, payload) {
        Some(s) => if s.len() > 0 {
            body + "\n\nFollow-up:\n"@ + s
        } else {
            body
        },
        None => body,
    }
}

fn build_report_body(event_type: &str, payload: &Json) -> (r: String)
    ensures
        r@ == report_body(event_type@, payload@),
{
    let mut r = find_subject_text(payload, "body").to_owned();
    if let Some(s) = find_follow_up(event_type, payload) {
        if !s.is_empty() {
            r.append("\n\nFollow-up:\n");
            r.append(s);
        }
    }
    r
}

/// The work on a report that takes the given way.
pub open spec fn task_on_route(
    route: Route,
    title: Seq<char>,
    body: Seq<char>,
    number: Option<int>,
) -> TaskModel {
    let (kind, prompt, labels) = match route {
        Route::Question => (
            TaskKind::Answer,
            framed(QUESTION_INTRO@, title, body, QUESTION_CLOSING@),
            seq!["question"@],
        ),
        Route::Invalid => (
            TaskKind::Invalid,
            framed(INVALID_INTRO@, title, body, ""@),
            seq!["invalid"@],
        ),
        Route::Duplicate => (
            TaskKind::Invalid,
            framed(DUPLICATE_INTRO@, title, body, ""@),
            seq!["duplicate"@],
        ),
        Route::Bug => (TaskKind::Fix, fix_prompt_text(title, body, number), seq!["bug"@]),
        Route::Documentation => (
            TaskKind::Fix,
            fix_prompt_text(title, body, number),
            seq!["documentation"@],
        ),
        Route::Enhancement => (
            TaskKind::Comment,
            framed(ENHANCEMENT_INTRO@, title, body, ENHANCEMENT_CLOSING@),
            seq!["enhancement"@],
        ),
        Route::Unmatched => (
            TaskKind::Comment,
            framed(ENHANCEMENT_INTRO@, title, body, ENHANCEMENT_CLOSING@),
            Seq::empty(),
        ),
    };
    TaskModel {
        kind,
        prompt,
        pr_body: Seq::empty(),
        comment: Seq::empty(),
        labels,
        autoclose: route == Route::Question,
    }
}

/// The event is about a closed issue or pull request.
pub open spec fn is_closed(payload: json::Tree) -> bool {
    subject_text(payload, "state"@) == "closed"@
}

/// The work that an event calls for, if its title and body read `lowered` in
/// lower case. Unsupported events and closed subjects call for none.
pub open spec fn task_for(event_type: Seq<char>, payload: json::Tree, lowered: Seq<char>) -> Option<
    TaskModel,
> {
    if !supported(event_type, payload.text_at("action"@)) || is_closed(payload) {
        None
    } else {
        Some(
            task_on_route(
                route_of(payload, lowered),
                subject_text(payload, "title"@),
                report_body(event_type, payload),
                subject_number(payload),
            ),
        )
    }
}

pub open spec fn task_view(t: Option<Task>) -> Option<TaskModel> {
    match t {
        Some(t) => Some(t@),
        None => None,
    }
}

fn one_label(name: &str) -> (r: Vec<String>)
    ensures
        text::texts(r@) == seq![name@],
{
    let r = vec![name.to_owned()];
    assert(text::texts(r@) =~= seq![name@]);
    r
}

fn build_on_route(route: Route, title: &str, body: &str, number: Option<i64>) -> (r: Task)
    ensures
        r@ == task_on_route(route, title@, body@, opt_int(number)),
{
    let (kind, prompt, labels) = match route {
        Route::Question => (
            TaskKind::Answer,
            question_prompt(title, body),
            one_label("question"),
        ),
        Route::Invalid => (TaskKind::Invalid, invalid_prompt(title, body), one_label("invalid")),
        Route::Duplicate => (
            TaskKind::Invalid,
            duplicate_prompt(title, body),
            one_label("duplicate"),
        ),
        Route::Bug => (TaskKind::Fix, fix_prompt(title, body, number), one_label("bug")),
        Route::Documentation => (
            TaskKind::Fix,
            fix_prompt(title, body, number),
            one_label("documentation"),
        ),
        Route::Enhancement => (
            TaskKind::Comment,
            enhancement_prompt(title, body),
            one_label("enhancement"),
        ),
        Route::Unmatched => {
            let none: Vec<String> = Vec::new();
            assert(text::texts(none@) =~= Seq::<Seq<char>>::empty());
            (TaskKind::Comment, enhancement_prompt(title, body), none)
        },
    };
    let autoclose = match route {
        Route::Question => true,
        _ => false,
    };
    Task { kind, prompt, pr_body: String::new(), comment: String::new(), labels, autoclose }
}

/// Builds the work that an event calls for, its title and body in lower case
/// being given.
pub fn build_task(event_type: &str, payload: &Json, lowered: &str) -> (r: Option<Task>)
    ensures
        task_view(r) == task_for(event_type@, payload@, lowered@),
{
    if !is_supported_event_action(event_type, payload.text_at("action")) {
        return None;
    }
    if text::same_text(find_subject_text(payload, "state"), "closed") {
        return None;
    }
    let route = choose_route(payload, lowered);
    let body = build_report_body(event_type, payload);
    Some(
        build_on_route(
            route,
            find_subject_text(payload, "title"),
            body.as_str(),
            find_subject_number(payload),
        ),
    )
}

/// The text that is searched for keywords: the title and the body.
pub open spec fn searched_text(payload: json::Tree) -> Seq<char> {
    subject_text(payload, "title"@) + "\n"@ + subject_text(payload, "body"@)
}

/// Builds the work that an event calls for.
pub fn classify_and_build_task(event_type: &str, payload: &Json) -> (r: Option<Task>)
    ensures
        task_view(r) == task_for(
            event_type@,
            payload@,
            foreign::lowercase_of(searched_text(payload@)),
        ),
        vstd::utf8::is_ascii_chars(searched_text(payload@)) ==> task_view(r) == task_for(
            event_type@,
            payload@,
            foreign::ascii_lowercase(searched_text(payload@)),
        ),
{
    let mut combined = find_subject_text(payload, "title").to_owned();
    combined.append("\n");
    combined.append(find_subject_text(payload, "body"));
    let lowered = foreign::lowercase(combined.as_str());
    build_task(event_type, payload, lowered.as_str())
}

/// Every fix prompt holds the report as it was given, asks for the four
/// sections of a report, and names the line that links the pull request to its
/// issue.
pub proof fn law_fix_prompt_asks_for_the_report(
    title: Seq<char>,
    body: Seq<char>,
    number: Option<int>,
)
    ensures
        ({
            let prompt = fix_prompt_text(title, body, number);
            &&& text::has_text(prompt, title)
            &&& text::has_text(prompt, body)
            &&& text::has_text(prompt, "## Repro"@)
            &&& text::has_text(prompt, "## Cause"@)
            &&& text::has_text(prompt, "## Fix"@)
            &&& text::has_text(prompt, "## Verification"@)
            &&& text::has_text(prompt, fix_target_text(number))
        }),
{
    let target = fix_target_text(number);
    let p1 = FIX_INTRO@ + title;
    let p2 = p1 + "\n\nBody:\n"@;
    let p3 = p2 + body;
    let p4 = p3 + FIX_STEPS@;
    let p5 = p4 + "## Repro"@;
    let p6 = p5 + "\n"@;
    let p7 = p6 + "## Cause"@;
    let p8 = p7 + "\n"@;
    let p9 = p8 + "## Fix"@;
    let p10 = p9 + "\n"@;
    let p11 = p10 + "## Verification"@;
    let p12 = p11 + "\nand end with a line: "@;
    let p13 = p12 + target;
    text::law_text_is_in_itself(title);
    text::law_text_is_in_itself(body);
    text::law_text_is_in_itself("## Repro"@);
    text::law_text_is_in_itself("## Cause"@);
    text::law_text_is_in_itself("## Fix"@);
    text::law_text_is_in_itself("## Verification"@);
    text::law_text_is_in_itself(target);
    text::law_concatenation_holds_both(FIX_INTRO@, title);
    text::law_concatenation_holds_both(p1, "\n\nBody:\n"@);
    text::law_concatenation_holds_both(p2, body);
    text::law_concatenation_holds_both(p3, FIX_STEPS@);
    text::law_concatenation_holds_both(p4, "## Repro"@);
    text::law_concatenation_holds_both(p5, "\n"@);
    text::law_concatenation_holds_both(p6, "## Cause"@);
    text::law_concatenation_holds_both(p7, "\n"@);
    text::law_concatenation_holds_both(p8, "## Fix"@);
    text::law_concatenation_holds_both(p9, "\n"@);
    text::law_concatenation_holds_both(p10, "## Verification"@);
    text::law_concatenation_holds_both(p11, "\nand end with a line: "@);
    text::law_concatenation_holds_both(p12, target);
    text::law_concatenation_holds_both(p13, FIX_CLOSING@);
}

/// Whatever way a report takes, its prompt holds the title and the body.
pub proof fn law_prompt_holds_the_report(
    route: Route,
    title: Seq<char>,
    body: Seq<char>,
    number: Option<int>,
)
    ensures
        text::has_text(task_on_route(route, title, body, number).prompt, title),
        text::has_text(task_on_route(route, title, body, number).prompt, body),
{
    law_fix_prompt_asks_for_the_report(title, body, number);
    text::law_text_is_in_itself(title);
    text::law_text_is_in_itself(body);
    assert forall|intro: Seq<char>, closing: Seq<char>| {
        &&& text::has_text(#[trigger] framed(intro, title, body, closing), title)
        &&& text::has_text(framed(intro, title, body, closing), body)
    } by {
        text::law_concatenation_holds_both(intro, title);
        text::law_concatenation_holds_both(intro + title, "\n\n"@);
        text::law_concatenation_holds_both(intro + title + "\n\n"@, body);
        text::law_concatenation_holds_both(intro + title + "\n\n"@ + body, closing);
    }
}

proof fn lemma_report_holds_follow_up(event_type: Seq<char>, payload: json::Tree)
    requires
        follow_up(event_type, payload) is Some,
    ensures
        text::has_text(report_body(event_type, payload), follow_up(event_type, payload)->0),
        text::has_text(report_body(event_type, payload), subject_text(payload, "body"@)),
{
    let said = follow_up(event_type, payload)->0;
    let body = subject_text(payload, "body"@);
    text::law_text_is_in_itself(body);
    text::law_text_is_in_itself(said);
    if said.len() > 0 {
        text::law_concatenation_holds_both(body, "\n\nFollow-up:\n"@);
        text::law_concatenation_holds_both(body + "\n\nFollow-up:\n"@, said);
    } else {
        assert(body.subrange(0, 0) =~= said);
        assert(text::occurs_at(body, said, 0));
    }
}

/// The prompt for a follow-up holds what the follow-up says, and the report
/// that it follows.
pub proof fn law_follow_up_is_in_the_prompt(
    event_type: Seq<char>,
    payload: json::Tree,
    lowered: Seq<char>,
)
    requires
        task_for(event_type, payload, lowered) is Some,
        follow_up(event_type, payload) is Some,
    ensures
        text::has_text(
            task_for(event_type, payload, lowered)->0.prompt,
            follow_up(event_type, payload)->0,
        ),
        text::has_text(
            task_for(event_type, payload, lowered)->0.prompt,
            subject_text(payload, "body"@),
        ),
{
    let prompt = task_for(event_type, payload, lowered)->0.prompt;
    let report = report_body(event_type, payload);
    law_prompt_holds_the_report(
        route_of(payload, lowered),
        subject_text(payload, "title"@),
        report,
        subject_number(payload),
    );
    lemma_report_holds_follow_up(event_type, payload);
    text::law_standing_in_is_transitive(prompt, report, follow_up(event_type, payload)->0);
    text::law_standing_in_is_transitive(prompt, report, subject_text(payload, "body"@));
}

/// Closed issues and pull requests, and events of other kinds or with other
/// actions, call for no work.
pub proof fn law_ignored_events(event_type: Seq<char>, payload: json::Tree, lowered: Seq<char>)
    ensures
        is_closed(payload) ==> task_for(event_type, payload, lowered) is None,
        !supported(event_type, payload.text_at("action"@)) ==> task_for(
            event_type,
            payload,
            lowered,
        ) is None,
        event_type != "issues"@ && event_type != "issue_comment"@ && event_type
            != "pull_request_review"@ ==> task_for(event_type, payload, lowered) is None,
        payload.text_at("action"@) is None ==> task_for(event_type, payload, lowered) is None,
{
}

/// A question label, or a question mark in the title, is matched before the
/// other labels, and labels before keywords. Questions alone are closed by
/// themselves.
pub proof fn law_labels_come_first(event_type: Seq<char>, payload: json::Tree, lowered: Seq<char>)
    requires
        task_for(event_type, payload, lowered) is Some,
    ensures
        ({
            let task = task_for(event_type, payload, lowered)->0;
            let question = has_label(payload, "question"@) || subject_text(
                payload,
                "title"@,
            ).contains('?');
            &&& question <==> task.kind == TaskKind::Answer
            &&& question <==> task.autoclose
            &&& !question && (has_label(payload, "invalid"@) || has_label(payload, "duplicate"@))
                <==> task.kind == TaskKind::Invalid
        }),
{
}

/// Where no label decides, a report that mentions a word of a bug report is
/// to be fixed as a bug, whatever other words it mentions; one that mentions a
/// word of documentation is to be fixed too; any other is only commented on.
pub proof fn law_bug_words_win(event_type: Seq<char>, payload: json::Tree, lowered: Seq<char>)
    requires
        task_for(event_type, payload, lowered) is Some,
        !has_label(payload, "question"@),
        !has_label(payload, "invalid"@),
        !has_label(payload, "duplicate"@),
        !subject_text(payload, "title"@).contains('?'),
    ensures
        ({
            let task = task_for(event_type, payload, lowered)->0;
            let bug = mentions(lowered, bug_words());
            let doc = mentions(lowered, doc_words());
            &&& bug ==> task.kind == TaskKind::Fix && task.labels == seq!["bug"@]
            &&& !bug && doc ==> task.kind == TaskKind::Fix && task.labels == seq!["documentation"@]
            &&& !bug && !doc ==> task.kind == TaskKind::Comment
        }),
{
}

/// The subject carries a label with the given name, at any place in its list.
pub open spec fn is_labelled(subject: json::Tree, name: Seq<char>) -> bool {
    subject.get("labels"@) is Some && subject.get("labels"@)->0 is Array && exists|i: int|
        0 <= i < subject.get("labels"@)->0->Array_0.len() && (
        #[trigger] subject.get("labels"@)->0->Array_0[i]).text_at("name"@) == Some(name)
}

/// The text of a member, empty where there is none.
pub open spec fn text_or_empty(t: json::Tree, name: Seq<char>) -> Seq<char> {
    match t.text_at(name) {
        Some(s) => s,
        None => Seq::empty(),
    }
}

/// `subject` is what a payload is about: its issue, or its pull request where it
/// has no issue.
pub open spec fn is_about(payload: json::Tree, subject: json::Tree) -> bool {
    ||| payload.get("issue"@) == Some(subject)
    ||| payload.get("issue"@) is None && payload.get("pull_request"@) == Some(subject)
}

/// One of `words` stands in `s`.
pub open spec fn holds_one(s: Seq<char>, words: Seq<Seq<char>>) -> bool {
    exists|w: Seq<char>| words.contains(w) && #[trigger] text::has_text(s, w)
}

proof fn lemma_subject(payload: json::Tree, t: json::Tree, name: Seq<char>)
    requires
        is_about(payload, t),
    ensures
        subject(payload) == Some(t),
        subject_text(payload, name) == text_or_empty(t, name),
        has_label(payload, name) == is_labelled(t, name),
{
    reveal_strlit("");
    assert(""@ =~= Seq::<char>::empty());
    if is_labelled(t, name) {
        let items = t.get("labels"@)->0->Array_0;
        let i = choose|i: int|
            0 <= i < items.len() && (#[trigger] items[i]).text_at("name"@) == Some(name);
        assert(items[i].text_at("name"@) == Some(name));
        assert(some_named(items, name));
    }
    if has_label(payload, name) {
        let items = t.get("labels"@)->0->Array_0;
        let i = choose|i: int|
            0 <= i < items.len() && (#[trigger] items[i]).text_at("name"@) == Some(name);
        assert(t.get("labels"@)->0->Array_0[i].text_at("name"@) == Some(name));
    }
}

/// Work is called for exactly by an issue that is opened, edited, labelled,
/// unlabelled or reopened, by a comment that is made and by a review that is
/// handed in, each on a subject that is not closed.
pub proof fn law_events_that_call_for_work(
    event_type: Seq<char>,
    action: Seq<char>,
    payload: json::Tree,
    subject: json::Tree,
    lowered: Seq<char>,
)
    requires
        payload.text_at("action"@) == Some(action),
        is_about(payload, subject),
    ensures
        task_for(event_type, payload, lowered) is Some <==> {
            &&& subject.text_at("state"@) != Some("closed"@)
            &&& {
                ||| event_type == "issues"@ && seq![
                    "opened"@,
                    "edited"@,
                    "labeled"@,
                    "unlabeled"@,
                    "reopened"@,
                ].contains(action)
                ||| event_type == "issue_comment"@ && action == "created"@
                ||| event_type == "pull_request_review"@ && action == "submitted"@
            }
        },
{
    lemma_subject(payload, subject, "state"@);
    reveal_strlit("closed");
    assert("closed"@.len() == 6);
    let actions = seq!["opened"@, "edited"@, "labeled"@, "unlabeled"@, "reopened"@];
    assert(actions[0] == "opened"@ && actions[1] == "edited"@ && actions[2] == "labeled"@
        && actions[3] == "unlabeled"@ && actions[4] == "reopened"@);
    assert(actions.contains("opened"@) && actions.contains("edited"@) && actions.contains(
        "labeled"@,
    ) && actions.contains("unlabeled"@) && actions.contains("reopened"@));
    if actions.contains(action) {
        let i = choose|i: int| 0 <= i < actions.len() && actions[i] == action;
        assert(i == 0 || i == 1 || i == 2 || i == 3 || i == 4);
    }
}

proof fn lemma_mentions(s: Seq<char>, words: Seq<Seq<char>>)
    ensures
        mentions(s, words) == holds_one(s, words),
{
    if mentions(s, words) {
        let i = choose|i: int| 0 <= i < words.len() && text::has_text(s, #[trigger] words[i]);
        assert(words.contains(words[i]));
    }
    if holds_one(s, words) {
        let w = choose|w: Seq<char>| words.contains(w) && #[trigger] text::has_text(s, w);
        let i = choose|i: int| 0 <= i < words.len() && words[i] == w;
        assert(text::has_text(s, words[i]));
    }
}

/// What is made of a report: a question is answered, what is marked invalid or a
/// duplicate is explained, what mentions a bug is fixed, then what mentions
/// documentation, and anything else is commented on. Each but the last carries
/// the label of its kind, and questions alone are closed by themselves.
pub proof fn law_reports_by_labels_and_words(
    event_type: Seq<char>,
    payload: json::Tree,
    subject: json::Tree,
    lowered: Seq<char>,
)
    requires
        task_for(event_type, payload, lowered) is Some,
        is_about(payload, subject),
    ensures
        ({
            let task = task_for(event_type, payload, lowered)->0;
            let question = is_labelled(subject, "question"@) || text_or_empty(
                subject,
                "title"@,
            ).contains('?');
            let invalid = is_labelled(subject, "invalid"@);
            let duplicate = is_labelled(subject, "duplicate"@);
            let decided = question || invalid || duplicate;
            let bug = holds_one(
                lowered,
                seq![
                    "bug"@,
                    "error"@,
                    "crash"@,
                    "fail"@,
                    "broken"@,
                    "exception"@,
                    "regression"@,
                ],
            );
            let doc = holds_one(
                lowered,
                seq!["documentation"@, "doc"@, "typo"@, "readme"@, "docs"@],
            );
            let feature = holds_one(
                lowered,
                seq!["feature"@, "enhancement"@, "proposal"@, "suggestion"@, "request"@],
            );
            &&& question ==> task.kind == TaskKind::Answer && task.labels == seq!["question"@]
            &&& !question && invalid ==> task.kind == TaskKind::Invalid && task.labels == seq![
                "invalid"@,
            ]
            &&& !question && !invalid && duplicate ==> task.kind == TaskKind::Invalid
                && task.labels == seq!["duplicate"@]
            &&& !decided && bug ==> task.kind == TaskKind::Fix && task.labels == seq!["bug"@]
            &&& !decided && !bug && doc ==> task.kind == TaskKind::Fix && task.labels == seq![
                "documentation"@,
            ]
            &&& !decided && !bug && !doc && feature ==> task.kind == TaskKind::Comment
                && task.labels == seq!["enhancement"@]
            &&& !decided && !bug && !doc && !feature ==> task.kind == TaskKind::Comment
                && task.labels == Seq::<Seq<char>>::empty()
            &&& task.autoclose <==> question
            &&& task.pr_body.len() == 0
            &&& task.comment.len() == 0
        }),
{
    lemma_subject(payload, subject, "question"@);
    lemma_subject(payload, subject, "invalid"@);
    lemma_subject(payload, subject, "duplicate"@);
    lemma_subject(payload, subject, "title"@);
    lemma_mentions(lowered, bug_words());
    lemma_mentions(lowered, doc_words());
    lemma_mentions(lowered, feature_words());
}

/// Keywords are looked for in the title and in the body, each in lower case: a
/// word that stands in one of them stands in the text that is searched.
pub proof fn law_title_and_body_are_searched(
    payload: json::Tree,
    subject: json::Tree,
    word: Seq<char>,
)
    requires
        is_about(payload, subject),
    ensures
        ({
            let title = text_or_empty(subject, "title"@);
            let body = text_or_empty(subject, "body"@);
            let searched = foreign::ascii_lowercase(searched_text(payload));
            &&& text::has_text(foreign::ascii_lowercase(title), word) ==> text::has_text(
                searched,
                word,
            )
            &&& text::has_text(foreign::ascii_lowercase(body), word) ==> text::has_text(
                searched,
                word,
            )
            &&& searched_text(payload) == title + "\n"@ + body
            &&& forall|s: Seq<char>, i: int|
                0 <= i < s.len() ==> (#[trigger] foreign::ascii_lowercase(s)[i]) as u32 == if 65
                    <= s[i] as u32 <= 90 {
                    s[i] as u32 + 32
                } else {
                    s[i] as u32 as int
                }
        }),
{
    lemma_subject(payload, subject, "title"@);
    lemma_subject(payload, subject, "body"@);
    let title = text_or_empty(subject, "title"@);
    let body = text_or_empty(subject, "body"@);
    let a = foreign::ascii_lowercase(title);
    let b = foreign::ascii_lowercase(body);
    let line = foreign::ascii_lowercase("\n"@);
    assert(foreign::ascii_lowercase(searched_text(payload)) =~= a + line + b);
    text::law_concatenation_holds_both(a, line);
    text::law_concatenation_holds_both(a + line, b);
}

/// A report on an open subject that no label and no question mark decides is
/// fixed as a bug where its title or its body mentions one, in whatever case.
pub proof fn law_bug_reports_are_fixed(
    event_type: Seq<char>,
    action: Seq<char>,
    payload: json::Tree,
    subject: json::Tree,
    word: Seq<char>,
)
    requires
        payload.text_at("action"@) == Some(action),
        is_about(payload, subject),
        event_type == "issues"@ && (action == "opened"@ || action == "edited"@ || action
            == "labeled"@ || action == "unlabeled"@ || action == "reopened"@) || event_type
            == "issue_comment"@ && action == "created"@ || event_type == "pull_request_review"@
            && action == "submitted"@,
        subject.text_at("state"@) != Some("closed"@),
        !is_labelled(subject, "question"@),
        !is_labelled(subject, "invalid"@),
        !is_labelled(subject, "duplicate"@),
        !text_or_empty(subject, "title"@).contains('?'),
        word == "bug"@ || word == "error"@ || word == "crash"@ || word == "fail"@ || word
            == "broken"@ || word == "exception"@ || word == "regression"@,
        text::has_text(foreign::ascii_lowercase(text_or_empty(subject, "title"@)), word)
            || text::has_text(foreign::ascii_lowercase(text_or_empty(subject, "body"@)), word),
    ensures
        ({
            let task = task_for(
                event_type,
                payload,
                foreign::ascii_lowercase(searched_text(payload)),
            );
            &&& task is Some
            &&& task->0.kind == TaskKind::Fix
            &&& task->0.labels == seq!["bug"@]
        }),
{
    let lowered = foreign::ascii_lowercase(searched_text(payload));
    let words = seq![
        "bug"@,
        "error"@,
        "crash"@,
        "fail"@,
        "broken"@,
        "exception"@,
        "regression"@,
    ];
    assert(words[0] == "bug"@ && words[1] == "error"@ && words[2] == "crash"@ && words[3]
        == "fail"@ && words[4] == "broken"@ && words[5] == "exception"@ && words[6]
        == "regression"@);
    assert(words.contains(word));
    law_title_and_body_are_searched(payload, subject, word);
    assert(holds_one(lowered, words));
    lemma_subject(payload, subject, "state"@);
    reveal_strlit("closed");
    assert("closed"@.len() == 6);
    law_reports_by_labels_and_words(event_type, payload, subject, lowered);
}

/// The engine reads the body of the subject, and behind it what a comment or a
/// review says, where it says something.
pub proof fn law_engine_reads_the_report(payload: json::Tree, subject: json::Tree)
    requires
        is_about(payload, subject),
    ensures
        ({
            let body = text_or_empty(subject, "body"@);
            let said = payload.text_at2("comment"@, "body"@);
            let reviewed = payload.text_at2("review"@, "body"@);
            &&& report_body("issues"@, payload) == body
            &&& report_body("issue_comment"@, payload) == if said is Some && said->0.len() > 0 {
                body + "\n\nFollow-up:\n"@ + said->0
            } else {
                body
            }
            &&& report_body("pull_request_review"@, payload) == if reviewed is Some
                && reviewed->0.len() > 0 {
                body + "\n\nFollow-up:\n"@ + reviewed->0
            } else {
                body
            }
        }),
{
    lemma_subject(payload, subject, "body"@);
    reveal_strlit("issues");
    reveal_strlit("issue_comment");
    reveal_strlit("pull_request_review");
    assert("issues"@.len() == 6);
    assert("issue_comment"@.len() == 13);
    assert("pull_request_review"@.len() == 19);
}

/// The prompt is made for the kind of the task, from the title and the report.
pub proof fn law_prompts_by_kind(
    event_type: Seq<char>,
    payload: json::Tree,
    subject: json::Tree,
    lowered: Seq<char>,
)
    requires
        task_for(event_type, payload, lowered) is Some,
        is_about(payload, subject),
    ensures
        ({
            let task = task_for(event_type, payload, lowered)->0;
            let title = text_or_empty(subject, "title"@);
            let body = report_body(event_type, payload);
            let number = match subject.get("number"@) {
                Some(json::Tree::Int(n)) => Some(n),
                _ => None,
            };
            &&& task.kind == TaskKind::Fix ==> task.prompt == fix_prompt_text(title, body, number)
            &&& task.kind == TaskKind::Answer ==> task.prompt
                == "A user asked a question in this repository. Answer helpfully and concisely, citing the relevant code where possible.\nQuestion: "@
                + title + "\n\n"@ + body + "\n\nProduce your answer as a single comment below."@
            &&& task.kind == TaskKind::Comment ==> task.prompt
                == "This is a feature/proposal. Acknowledge it and summarize the request, note feasibility or a plan, without making changes.\nTitle: "@
                + title + "\n\n"@ + body + "\n\nProduce your response as a single comment below."@
            &&& task.labels == seq!["invalid"@] ==> task.prompt
                == "This issue was marked invalid. Briefly (1-2 sentences) explain why and what the reporter should do instead.\nTitle: "@
                + title + "\n\n"@ + body
            &&& task.labels == seq!["duplicate"@] ==> task.prompt
                == "This issue was marked duplicate. Briefly point the reporter to the existing (duplicate) thread.\nTitle: "@
                + title + "\n\n"@ + body
        }),
{
    lemma_subject(payload, subject, "title"@);
    reveal_strlit("");
    reveal_strlit("question");
    reveal_strlit("invalid");
    reveal_strlit("duplicate");
    reveal_strlit("bug");
    reveal_strlit("documentation");
    reveal_strlit("enhancement");
    let labels = task_for(event_type, payload, lowered)->0.labels;
    let one = seq!["invalid"@];
    let two = seq!["duplicate"@];
    assert(one[0] == "invalid"@ && two[0] == "duplicate"@);
    assert("invalid"@.len() == 7 && "duplicate"@.len() == 9 && "question"@.len() == 8
        && "bug"@.len() == 3 && "documentation"@.len() == 13 && "enhancement"@.len() == 11);
    let plain = "\n\n"@;
    let title = text_or_empty(subject, "title"@);
    let body = report_body(event_type, payload);
    assert(forall|intro: Seq<char>| #[trigger] framed(intro, title, body, ""@) =~= intro + title
        + plain + body);
    match route_of(payload, lowered) {
        Route::Question => assert(labels[0] == "question"@),
        Route::Invalid => assert(labels[0] == "invalid"@),
        Route::Duplicate => assert(labels[0] == "duplicate"@),
        Route::Bug => assert(labels[0] == "bug"@),
        Route::Documentation => assert(labels[0] == "documentation"@),
        Route::Enhancement => assert(labels[0] == "enhancement"@),
        Route::Unmatched => assert(labels.len() == 0),
    }
}

/// The line that links a pull request to its issue names the issue by its
/// number.
pub proof fn law_fix_names_its_issue(n: int)
    ensures
        fix_target_text(Some(n)) == "Fixes #"@ + decimal::decimal(n),
        fix_target_text(None) == "Fixes #<issue-number>"@,
{
}

/// Each kind is written by its own word.
pub proof fn law_names_of_kinds()
    ensures
        TaskKind::Fix.name() == "fix"@,
        TaskKind::Answer.name() == "answer"@,
        TaskKind::Comment.name() == "comment"@,
        TaskKind::Invalid.name() == "invalid"@,
        TaskKind::Skip.name() == "skip"@,
{
}

/// The prompt for a bug report gives the title and the body, then the steps, then
/// the sections of the report in their order, then the line that links the pull
/// request to its issue. Among the steps are to reproduce, to fix, to verify and
/// to commit.
pub proof fn law_fix_prompt_is_in_order(title: Seq<char>, body: Seq<char>, number: Option<int>)
    ensures
        fix_prompt_text(title, body, number) == FIX_INTRO@ + title + "\n\nBody:\n"@ + body
            + FIX_STEPS@
            + "## Repro\n## Cause\n## Fix\n## Verification\nand end with a line: "@
            + fix_target_text(number) + FIX_CLOSING@,
        text::has_text(FIX_STEPS@, "1. REPRODUCE"@),
        text::has_text(FIX_STEPS@, "3. FIX: EDIT the source file(s)"@),
        text::has_text(FIX_STEPS@, "4. VERIFY: run the tests"@),
        text::has_text(FIX_STEPS@, "5. COMMIT: stage and commit your changes"@),
        text::has_text(
            FIX_CLOSING@,
            "You must make a code change and commit it."@,
        ),
{
    reveal_strlit("## Repro\n## Cause\n## Fix\n## Verification\nand end with a line: ");
    reveal_strlit("## Repro");
    reveal_strlit("\n");
    reveal_strlit("## Cause");
    reveal_strlit("## Fix");
    reveal_strlit("## Verification");
    reveal_strlit("\nand end with a line: ");
    assert("## Repro"@ + "\n"@ + "## Cause"@ + "\n"@ + "## Fix"@ + "\n"@ + "## Verification"@
        + "\nand end with a line: "@
        =~= "## Repro\n## Cause\n## Fix\n## Verification\nand end with a line: "@);
    assert(fix_prompt_text(title, body, number) =~= FIX_INTRO@ + title + "\n\nBody:\n"@ + body
        + FIX_STEPS@ + "## Repro\n## Cause\n## Fix\n## Verification\nand end with a line: "@
        + fix_target_text(number) + FIX_CLOSING@);
    lemma_steps_of_a_fix();
}

proof fn lemma_steps_of_a_fix()
    ensures
        text::has_text(FIX_STEPS@, "1. REPRODUCE"@),
        text::has_text(FIX_STEPS@, "3. FIX: EDIT the source file(s)"@),
        text::has_text(FIX_STEPS@, "4. VERIFY: run the tests"@),
        text::has_text(FIX_STEPS@, "5. COMMIT: stage and commit your changes"@),
        text::has_text(FIX_CLOSING@, "You must make a code change and commit it."@),
{
    reveal_strlit("\n\n1. REPRODUCE: run the app/tests or write a small script to confirm the bug. Show the actual failure.\n2. FIND THE CAUSE: read the relevant source and pinpoint the exact line/condition responsible.\n3. FIX: EDIT the source file(s) with the edit/write tools. Make a small, targeted change. You MUST change the code - analysis alone is not a fix.\n4. VERIFY: run the tests (or repro) and show they now pass.\n5. COMMIT: stage and commit your changes with a clear message. This is required; a fix without a commit is incomplete.\n6. REPORT: produce a final message with exactly these sections:\n");
    reveal_strlit(".\n\nIMPORTANT: Do not merely explore and summarize. You must make a code change and commit it. If there is genuinely nothing to fix, say so explicitly in the ## Cause section and do not fabricate a fix.");
    reveal_strlit("1. REPRODUCE");
    assert(FIX_STEPS@.subrange(2, 14) =~= "1. REPRODUCE"@);
    assert(text::occurs_at(FIX_STEPS@, "1. REPRODUCE"@, 2));
    reveal_strlit("3. FIX: EDIT the source file(s)");
    assert(FIX_STEPS@.subrange(198, 229) =~= "3. FIX: EDIT the source file(s)"@);
    assert(text::occurs_at(FIX_STEPS@, "3. FIX: EDIT the source file(s)"@, 198));
    reveal_strlit("4. VERIFY: run the tests");
    assert(FIX_STEPS@.subrange(344, 368) =~= "4. VERIFY: run the tests"@);
    assert(text::occurs_at(FIX_STEPS@, "4. VERIFY: run the tests"@, 344));
    reveal_strlit("5. COMMIT: stage and commit your changes");
    assert(FIX_STEPS@.subrange(404, 444) =~= "5. COMMIT: stage and commit your changes"@);
    assert(text::occurs_at(FIX_STEPS@, "5. COMMIT: stage and commit your changes"@, 404));
    reveal_strlit("You must make a code change and commit it.");
    assert(FIX_CLOSING@.subrange(51, 93) =~= "You must make a code change and commit it."@);
    assert(text::occurs_at(FIX_CLOSING@, "You must make a code change and commit it."@, 51));
}

} // verus!
