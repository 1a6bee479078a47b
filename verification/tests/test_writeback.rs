use monkey::adapters::Outcome;
use monkey::dispatch::TaskKind;
use monkey::gh_writeback::{
    PrAction, PrState, RepoRef, WriteBack, clean_pr_title, clean_words, determine_pr_title,
    ensure_comment, finish_title, has_required_headers, headers_present, open_pr_if_gated,
    read_commit_subject, start_pr, subject_arguments, truncate_utf8, write_back,
};
use monkey::host_tools::{GhProxyError, Method};
use monkey::json::Json;
use monkey::sandbox::GitRun;

const GOOD_BODY: &str = r#"## Repro
always

## Cause
root

## Fix
patch

## Verification
test passes

Fixes #123
"#;

fn repo_ref(number: i64) -> RepoRef {
    RepoRef {
        owner: "acme".into(),
        repo: "widget".into(),
        number,
    }
}

fn ok() -> Result<Json, GhProxyError> {
    Ok(Json::Object(vec![("ok".to_string(), Json::Bool(true))]))
}

fn pull(number: i64) -> Json {
    Json::Object(vec![("number".to_string(), Json::Int(number))])
}

fn refusal(status: u16, body: &str) -> GhProxyError {
    GhProxyError::Status {
        method: Method::Post,
        path: "/pulls/acme/widget".to_string(),
        status,
        body: body.to_string(),
    }
}

#[test]
fn test_required_headers_pass_when_present() {
    assert!(has_required_headers(GOOD_BODY, 123));
}

#[test]
fn test_missing_section_fails() {
    let bad = GOOD_BODY.replace("## Fix", "Fix");
    assert!(!has_required_headers(&bad, 123));
}

#[test]
fn test_missing_reference_fails() {
    let bad = GOOD_BODY.replace("Fixes #123", "Addresses #123");
    assert!(!has_required_headers(&bad, 123));
}

#[test]
fn test_accepts_close_and_resolve_on_the_same_issue() {
    assert!(has_required_headers(
        &GOOD_BODY.replace("Fixes #123", "Closes #123"),
        123
    ));
    assert!(has_required_headers(
        &GOOD_BODY.replace("Fixes #123", "Resolves #123"),
        123
    ));
}

#[test]
fn test_rejects_reference_to_a_different_issue() {
    assert!(!has_required_headers(
        &GOOD_BODY.replace("Fixes #123", "Resolves #456"),
        123
    ));
}

#[test]
fn closing_words_are_whole_and_of_either_case() {
    let with = |line: &str| GOOD_BODY.replace("Fixes #123", line);
    assert!(has_required_headers(&with("fIXES \t#123."), 123));
    assert!(has_required_headers(&with("Fixe\u{17f}\u{2003}#123"), 123));
    assert!(!has_required_headers(&with("Fixes #1234"), 123));
    assert!(!has_required_headers(&with("Fixes #123é"), 123));
    assert!(!has_required_headers(&with("Fixes#123"), 123));
    assert!(has_required_headers(&with("Fixes #-5"), -5));
    assert!(headers_present(GOOD_BODY, Some(true)));
    assert!(!headers_present(GOOD_BODY, Some(false)));
    assert!(!headers_present(GOOD_BODY, None));
}

#[test]
fn test_open_pr_requires_a_real_branch() {
    let outcome = Outcome {
        pr_body: GOOD_BODY.to_string(),
        summary: "Fix the bug".to_string(),
        branch: String::new(), // empty branch!
        ..Default::default()
    };

    let (_, state, action) = open_pr_if_gated(&outcome, &repo_ref(123), "main");
    assert!(matches!(state, PrState::Over));
    match action {
        PrAction::Comment { body, result } => {
            assert_eq!(body, GOOD_BODY.trim());
            assert_eq!(result.text_at("action"), Some("comment_fallback"));
            assert_eq!(result.text_at("reason"), Some("missing_branch"));
        }
        other => panic!("expected a comment, got {other:?}"),
    }
}

#[test]
fn incomplete_report_becomes_a_comment() {
    let outcome = Outcome {
        summary: "  ".to_string(),
        branch: "farm/x".to_string(),
        ..Default::default()
    };
    let (job, _, action) = open_pr_if_gated(&outcome, &repo_ref(123), "main");
    assert_eq!(job.body, "  ");
    match action {
        PrAction::Comment { body, result } => {
            assert_eq!(body, "_no response produced_");
            assert_eq!(result.text_at("reason"), Some("missing_required_headers"));
        }
        other => panic!("expected a comment, got {other:?}"),
    }
    assert!(matches!(start_pr("b", true, "x"), (_, PrAction::Push)));
}

#[test]
fn test_open_pr_pushes_branch_then_opens() {
    let branch = "farm/abc1234/widget";
    let summary = format!("{}é", "a".repeat(119));
    let outcome = Outcome {
        pr_body: GOOD_BODY.to_string(),
        summary: summary.clone(),
        branch: branch.to_string(),
        ..Default::default()
    };

    let (job, state, action) = open_pr_if_gated(&outcome, &repo_ref(123), "main");
    assert!(matches!(action, PrAction::Push));
    let (state, action) = state.on_reply(&job, ok());
    assert!(matches!(action, PrAction::FindTitle));
    let title = determine_pr_title("", &summary, &repo_ref(123));
    let (state, action) = state.on_title(&job, title);
    match action {
        PrAction::Open(payload) => {
            assert_eq!(payload.text_at("head"), Some(branch));
            assert_eq!(payload.text_at("base"), Some("main"));
            assert_eq!(payload.text_at("body"), Some(GOOD_BODY));
            assert_eq!(
                payload.text_at("title"),
                Some(format!("A{}", "a".repeat(118)).as_str())
            );
        }
        other => panic!("expected an opening, got {other:?}"),
    }
    let (state, action) = state.on_reply(&job, Ok(pull(1)));
    assert!(matches!(state, PrState::Over));
    match action {
        PrAction::Finish(result) => {
            assert_eq!(result.text_at("action"), Some("open_pr"));
            assert_eq!(result.get("pr"), Some(&pull(1)));
        }
        other => panic!("expected an end, got {other:?}"),
    }
}

fn opening() -> (monkey::gh_writeback::PrJob, PrState) {
    let outcome = Outcome {
        pr_body: GOOD_BODY.to_string(),
        summary: "Fix stale mirrors in sandbox".to_string(),
        branch: "farm/abc1234/widget".to_string(),
        ..Default::default()
    };
    let (job, state, _) = open_pr_if_gated(&outcome, &repo_ref(123), "main");
    let (state, _) = state.on_reply(&job, ok());
    let title = determine_pr_title("", &outcome.summary, &repo_ref(123));
    let (state, _) = state.on_title(&job, title);
    (job, state)
}

#[test]
fn test_open_pr_updates_existing_when_already_exists() {
    let (job, state) = opening();
    let (state, action) = state.on_reply(
        &job,
        Err(refusal(
            422,
            "A pull request already exists for acme:farm/abc1234/widget.",
        )),
    );
    assert!(matches!(action, PrAction::List(head) if head == "acme:farm/abc1234/widget"));
    let (state, action) = state.on_reply(&job, Ok(Json::Array(vec![pull(42)])));
    match action {
        PrAction::Update(number, payload) => {
            assert_eq!(number, 42);
            assert_eq!(
                payload.text_at("title"),
                Some("Fix stale mirrors in sandbox")
            );
            assert_eq!(payload.text_at("body"), Some(GOOD_BODY));
        }
        other => panic!("expected an update, got {other:?}"),
    }
    let (_, action) = state.on_reply(&job, Ok(pull(42)));
    match action {
        PrAction::Finish(result) => {
            assert_eq!(result.text_at("action"), Some("open_pr"));
            assert_eq!(
                result.get("pr").and_then(|pr| pr.get("number")),
                Some(&Json::Int(42))
            );
        }
        other => panic!("expected an end, got {other:?}"),
    }
}

#[test]
fn existing_pull_request_is_looked_for_twice() {
    let (job, state) = opening();
    let (state, _) = state.on_reply(&job, Err(refusal(422, "already exists")));
    let (state, action) = state.on_reply(&job, ok());
    assert!(matches!(action, PrAction::List(head) if head == "farm/abc1234/widget"));
    let (state, action) = state.on_reply(&job, Ok(Json::Array(Vec::new())));
    assert!(matches!(state, PrState::Over));
    assert!(matches!(
        action,
        PrAction::Fail(GhProxyError::Status { status: 422, .. })
    ));
}

#[test]
fn existing_pull_request_without_number_is_taken_as_it_is() {
    let (job, state) = opening();
    let (state, _) = state.on_reply(&job, Err(refusal(422, "already exists")));
    let odd = Json::Object(vec![("number".to_string(), Json::Null)]);
    let (_, action) = state.on_reply(&job, Ok(Json::Array(vec![odd.copy(), pull(1)])));
    match action {
        PrAction::Finish(result) => assert_eq!(result.get("pr"), Some(&odd)),
        other => panic!("expected an end, got {other:?}"),
    }
}

#[test]
fn other_refusals_fail_the_pull_request() {
    let (job, state) = opening();
    let (_, action) = state.on_reply(&job, Err(refusal(422, "Validation Failed")));
    assert!(matches!(action, PrAction::Fail(_)));
    let (job, state) = opening();
    let (_, action) = state.on_reply(&job, Err(refusal(500, "already exists")));
    assert!(matches!(action, PrAction::Fail(_)));
    let (job, state) = opening();
    let (_, action) = state.on_reply(
        &job,
        Err(GhProxyError::Request("already exists".to_string())),
    );
    assert!(matches!(action, PrAction::Fail(GhProxyError::Request(_))));
}

#[test]
fn test_clean_pr_title_strips_conventional_prefix_and_punctuation() {
    assert_eq!(
        clean_pr_title("fix(sandbox): refresh existing git mirror before creating workspaces."),
        "Refresh existing git mirror before creating workspaces"
    );
    assert_eq!(
        clean_pr_title("feat!: support new mode!"),
        "Support new mode"
    );
    assert_eq!(clean_pr_title("## Repro"), "Repro");
    assert_eq!(
        clean_pr_title("Fix stale Git mirrors in sandbox workspace preparation"),
        "Fix stale Git mirrors in sandbox workspace preparation"
    );
}

#[test]
fn titles_of_odd_texts() {
    assert_eq!(clean_pr_title(""), "");
    assert_eq!(clean_pr_title("#?!.,;"), "");
    assert_eq!(clean_pr_title("fix():  keep"), "Fix():  keep");
    assert_eq!(clean_pr_title("fix(a)b: keep"), "Fix(a)b: keep");
    assert_eq!(clean_pr_title("fi\u{17f}\u{212a}(a\n)!:\u{3000}éa"), "Éa");
    assert_eq!(clean_pr_title("ßx"), "SSx");
    assert_eq!(clean_words("chore: a. "), "a");
    assert_eq!(finish_title("abc", true, "XY"), "XYbc");
    assert_eq!(finish_title("abc", false, "XY"), "abc");
}

#[test]
fn truncation_keeps_whole_characters() {
    assert_eq!(truncate_utf8("aé€😀", 10), "aé€😀");
    assert_eq!(truncate_utf8("aé€😀", 9), "aé€");
    assert_eq!(truncate_utf8("aé€😀", 5), "aé");
    assert_eq!(truncate_utf8("aé€😀", 2), "a");
    assert_eq!(truncate_utf8("é", 0), "");
}

#[test]
fn test_determine_pr_title_prefers_git_commit_subject() {
    let summary = "## Repro\nStale mirror repro.\n## Fix\nFixed.";
    let run = GitRun::Ended {
        success: true,
        stdout: "fix(sandbox): refresh mirrors before branching.\n".to_string(),
        stderr: String::new(),
    };
    let title = determine_pr_title(&read_commit_subject(&run), summary, &repo_ref(14));
    assert_eq!(title, "Refresh mirrors before branching");
    assert_eq!(
        subject_arguments("/wt"),
        vec!["-C", "/wt", "log", "-1", "--format=%s"]
    );
}

#[test]
fn test_determine_pr_title_skips_markdown_headers_in_summary_fallback() {
    let summary = "## Repro\nRefresh mirrors before branching.\n## Fix\nFixed.";
    let run = GitRun::Ended {
        success: false,
        stdout: "ignored".to_string(),
        stderr: String::new(),
    };
    let title = determine_pr_title(&read_commit_subject(&run), summary, &repo_ref(14));
    assert_eq!(title, "Refresh mirrors before branching");
}

#[test]
fn title_of_last_resort_names_the_issue() {
    assert_eq!(
        determine_pr_title("...", "# only\r\n\r\n ;\n", &repo_ref(14)),
        "Fix acme/widget#14"
    );
    assert_eq!(repo_ref(1).slug(), "acme/widget");
}

#[test]
fn write_back_is_by_kind() {
    let outcome = Outcome {
        summary: "the summary".to_string(),
        comment: " the comment ".to_string(),
        ..Default::default()
    };
    assert!(matches!(
        write_back(&outcome, TaskKind::Fix),
        WriteBack::PullRequest
    ));
    match write_back(&outcome, TaskKind::Answer) {
        WriteBack::Comment { body, result } => {
            assert_eq!(body, "the comment");
            assert_eq!(result.text_at("action"), Some("comment"));
            assert_eq!(result.text_at("kind"), Some("answer"));
        }
        other => panic!("expected a comment, got {other:?}"),
    }
    match write_back(&outcome, TaskKind::Skip) {
        WriteBack::Nothing(result) => {
            assert_eq!(result.text_at("action"), Some("none"));
            assert_eq!(result.text_at("kind"), Some("skip"));
        }
        other => panic!("expected nothing, got {other:?}"),
    }
    let silent = Outcome {
        summary: "529 overloaded".to_string(),
        ..Default::default()
    };
    assert!(matches!(
        write_back(&silent, TaskKind::Comment),
        WriteBack::Comment { body, .. } if body == "529 overloaded"
    ));
}

#[test]
fn comments_are_trimmed_and_never_empty() {
    assert_eq!(ensure_comment("\u{3000} hi \n"), "hi");
    assert_eq!(ensure_comment(" \t "), "_no response produced_");
}

#[test]
fn test_writeback_test_required_headers_pass_when_present() {
    assert!(has_required_headers(GOOD_BODY, 123));
}

#[test]
fn test_writeback_test_missing_section_fails() {
    let bad = GOOD_BODY.replace("## Fix", "Fix");
    assert!(!has_required_headers(&bad, 123));
}

#[test]
fn test_writeback_test_missing_reference_fails() {
    let bad = GOOD_BODY.replace("Fixes #123", "Addresses #123");
    assert!(!has_required_headers(&bad, 123));
}

#[test]
fn test_writeback_test_accepts_close_and_resolve_on_the_same_issue() {
    assert!(has_required_headers(
        &GOOD_BODY.replace("Fixes #123", "Closes #123"),
        123
    ));
    assert!(has_required_headers(
        &GOOD_BODY.replace("Fixes #123", "Resolves #123"),
        123
    ));
}

#[test]
fn test_writeback_test_rejects_reference_to_a_different_issue() {
    assert!(!has_required_headers(
        &GOOD_BODY.replace("Fixes #123", "Resolves #456"),
        123
    ));
}

#[test]
fn test_writeback_test_open_pr_pushes_branch_then_opens() {
    let branch = "farm/abc1234/widget";
    let outcome = Outcome {
        pr_body: GOOD_BODY.to_string(),
        summary: "Fix the bug".to_string(),
        branch: branch.to_string(),
        ..Default::default()
    };
    let (job, state, action) = open_pr_if_gated(&outcome, &repo_ref(123), "main");
    assert!(matches!(action, PrAction::Push));
    assert_eq!(job.branch, branch);
    let (state, _) = state.on_reply(&job, ok());
    let title = determine_pr_title("", &outcome.summary, &repo_ref(123));
    let (_, action) = state.on_title(&job, title);
    match action {
        PrAction::Open(payload) => {
            assert_eq!(payload.text_at("head"), Some(branch));
            assert_eq!(payload.text_at("title"), Some("Fix the bug"));
        }
        other => panic!("expected an opening, got {other:?}"),
    }
}
