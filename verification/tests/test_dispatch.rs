use monkey::dispatch::{
    TaskKind, build_task, classify_and_build_task, duplicate_prompt, enhancement_prompt,
    fix_prompt, invalid_prompt, question_prompt,
};
use monkey::json::Json;

fn convert(value: serde_json::Value) -> Json {
    match value {
        serde_json::Value::Null => Json::Null,
        serde_json::Value::Bool(b) => Json::Bool(b),
        serde_json::Value::Number(n) => match n.as_i64() {
            Some(i) => Json::Int(i),
            None => Json::Number(n.to_string()),
        },
        serde_json::Value::String(s) => Json::Text(s),
        serde_json::Value::Array(items) => Json::Array(items.into_iter().map(convert).collect()),
        serde_json::Value::Object(members) => Json::Object(
            members
                .into_iter()
                .map(|(name, value)| (name, convert(value)))
                .collect(),
        ),
    }
}

fn json(text: &str) -> Json {
    convert(serde_json::from_str(text).unwrap())
}

fn text(value: &str) -> Json {
    Json::Text(value.to_string())
}

fn object(members: Vec<(&str, Json)>) -> Json {
    Json::Object(
        members
            .into_iter()
            .map(|(name, value)| (name.to_string(), value))
            .collect(),
    )
}

fn payload_with(
    action: &str,
    title: &str,
    body: &str,
    labels: Option<Vec<&str>>,
    state: Option<&str>,
) -> Json {
    let label_objs = labels
        .unwrap_or_default()
        .into_iter()
        .map(|l| object(vec![("name", text(l))]))
        .collect();
    let mut issue = vec![
        ("title", text(title)),
        ("body", text(body)),
        ("labels", Json::Array(label_objs)),
    ];
    if let Some(state) = state {
        issue.push(("state", text(state)));
    }
    object(vec![("action", text(action)), ("issue", object(issue))])
}

fn make_payload(title: &str, body: &str, labels: Option<Vec<&str>>) -> Json {
    payload_with("opened", title, body, labels, None)
}

#[test]
fn test_bug_with_label_goes_to_fix() {
    let payload = make_payload("App crashes", "boost crash error", None);
    let task = classify_and_build_task("issues", &payload).unwrap();
    assert_eq!(task.kind, TaskKind::Fix);
    assert!(task.labels.contains(&"bug".to_string()));
}

#[test]
fn test_question_marked_label_answers() {
    let payload = make_payload("How do I X?", "something", Some(vec!["question"]));
    let task = classify_and_build_task("issues", &payload).unwrap();
    assert_eq!(task.kind, TaskKind::Answer);
}

#[test]
fn test_documentation_goes_to_fix() {
    let payload = make_payload("Fix typo", "docs/readme has typo", None);
    let task = classify_and_build_task("issues", &payload).unwrap();
    assert_eq!(task.kind, TaskKind::Fix);
    assert!(task.labels.contains(&"documentation".to_string()));
}

#[test]
fn test_invalid_goes_to_invalid() {
    let payload = make_payload("Not a real bug", "what is this", Some(vec!["invalid"]));
    let task = classify_and_build_task("issues", &payload).unwrap();
    assert_eq!(task.kind, TaskKind::Invalid);
}

#[test]
fn test_enhancement_goes_to_comment() {
    let payload = make_payload("Add dark mode", "please feature", None);
    let task = classify_and_build_task("issues", &payload).unwrap();
    assert_eq!(task.kind, TaskKind::Comment);
}

#[test]
fn test_fix_prompt_contains_required_sections() {
    let payload = make_payload("Bug on mobile", "buttons overlap", None);
    let task = classify_and_build_task("issues", &payload).unwrap();
    let prompt = task.prompt;
    for section in ["## Repro", "## Cause", "## Fix", "## Verification"] {
        assert!(prompt.contains(section));
    }
}

#[test]
fn test_pull_request_event_is_skipped() {
    let payload = make_payload("Bug in pull request", "crash", None);
    assert!(classify_and_build_task("pull_request", &payload).is_none());
}

#[test]
fn test_unsupported_action_is_skipped() {
    let payload = payload_with("closed", "App crashes", "bug", None, None);
    assert!(classify_and_build_task("issues", &payload).is_none());
}

#[test]
fn test_missing_action_is_skipped() {
    let payload = json(r#"{"issue": {"title": "App crashes", "body": "bug"}}"#);
    assert!(classify_and_build_task("issues", &payload).is_none());
}

#[test]
fn test_closed_issue_is_skipped() {
    let payload = payload_with("opened", "App crashes", "crash error", None, Some("closed"));
    assert!(classify_and_build_task("issues", &payload).is_none());
}

#[test]
fn test_issue_comment_body_is_included_in_prompt() {
    let payload = json(
        r#"{
        "action": "created",
        "issue": {
            "title": "App crashes on save",
            "body": "it dies when I hit save",
            "state": "open",
            "labels": [{"name": "bug"}]
        },
        "comment": {"body": "FOLLOW_UP_MARKER it only happens for files over 1GB"}
    }"#,
    );
    let task = classify_and_build_task("issue_comment", &payload).unwrap();
    assert!(task.prompt.contains("FOLLOW_UP_MARKER"));
    // The report that it follows stays available for context.
    assert!(task.prompt.contains("it dies when I hit save"));
}

#[test]
fn test_pull_request_review_body_is_included_in_prompt() {
    let payload = json(
        r#"{
        "action": "submitted",
        "pull_request": {
            "title": "App crashes on save",
            "body": "it dies when I hit save",
            "state": "open",
            "labels": []
        },
        "review": {"body": "REVIEW_MARKER the crash is in save_dialog()"}
    }"#,
    );
    let task = classify_and_build_task("pull_request_review", &payload).unwrap();
    assert!(task.prompt.contains("REVIEW_MARKER"));
}

#[test]
fn keywords_are_found_whatever_their_case() {
    let payload = make_payload("EXCEPTION on start", "README is fine", None);
    let task = classify_and_build_task("issues", &payload).unwrap();
    assert_eq!(task.kind, TaskKind::Fix);
    assert_eq!(task.labels, vec!["bug"], "bug keywords win over doc ones");
    assert!(!task.autoclose);
    // The same payload, with a lower case that hides the keyword.
    let task = build_task("issues", &payload, "nothing to see").unwrap();
    assert_eq!(task.kind, TaskKind::Comment);
    assert!(task.labels.is_empty());
}

#[test]
fn labels_come_before_keywords() {
    let question = make_payload("crash", "bug", Some(vec!["invalid", "question"]));
    let task = classify_and_build_task("issues", &question).unwrap();
    assert_eq!(task.kind, TaskKind::Answer);
    assert_eq!(task.labels, vec!["question"]);
    assert!(task.autoclose);

    let marked = make_payload("does it crash?", "bug", None);
    assert_eq!(
        classify_and_build_task("issues", &marked).unwrap().kind,
        TaskKind::Answer
    );

    let duplicate = make_payload("crash", "bug", Some(vec!["duplicate"]));
    let task = classify_and_build_task("issues", &duplicate).unwrap();
    assert_eq!(task.kind, TaskKind::Invalid);
    assert_eq!(task.labels, vec!["duplicate"]);
    assert_eq!(task.prompt, duplicate_prompt("crash", "bug"));
}

#[test]
fn unmatched_report_is_commented_on() {
    let payload = make_payload("Hello", "there", None);
    let task = classify_and_build_task("issues", &payload).unwrap();
    assert_eq!(task.kind, TaskKind::Comment);
    assert_eq!(task.prompt, enhancement_prompt("Hello", "there"));
    assert!(task.labels.is_empty());
    assert_eq!(task.pr_body, "");
    assert_eq!(task.comment, "");
}

#[test]
fn fix_prompt_names_the_issue() {
    let prompt = fix_prompt("T", "B", Some(7));
    assert!(prompt.starts_with(
        "You are triaging a bug report in this repository. Your job is to actually fix it, not just analyze it. Follow these steps IN ORDER and do NOT stop until you reach step 6.\n\nTitle: T\n\nBody:\nB\n\n1. REPRODUCE:"
    ));
    assert!(prompt.contains(
        "## Repro\n## Cause\n## Fix\n## Verification\nand end with a line: Fixes #7.\n\nIMPORTANT:"
    ));
    assert!(fix_prompt("T", "B", None).contains("Fixes #<issue-number>."));
}

#[test]
fn other_prompts_frame_the_report() {
    assert_eq!(
        question_prompt("T", "B"),
        "A user asked a question in this repository. Answer helpfully and concisely, citing the relevant code where possible.\nQuestion: T\n\nB\n\nProduce your answer as a single comment below."
    );
    assert_eq!(
        invalid_prompt("T", "B"),
        "This issue was marked invalid. Briefly (1-2 sentences) explain why and what the reporter should do instead.\nTitle: T\n\nB"
    );
    assert_eq!(
        duplicate_prompt("T", "B"),
        "This issue was marked duplicate. Briefly point the reporter to the existing (duplicate) thread.\nTitle: T\n\nB"
    );
    assert_eq!(
        enhancement_prompt("T", "B"),
        "This is a feature/proposal. Acknowledge it and summarize the request, note feasibility or a plan, without making changes.\nTitle: T\n\nB\n\nProduce your response as a single comment below."
    );
}

#[test]
fn task_kinds_in_words() {
    assert_eq!(TaskKind::Fix.to_text(), "fix");
    assert_eq!(TaskKind::Answer.to_text(), "answer");
    assert_eq!(TaskKind::Comment.to_text(), "comment");
    assert_eq!(TaskKind::Invalid.to_text(), "invalid");
    assert_eq!(TaskKind::Skip.to_text(), "skip");
}
