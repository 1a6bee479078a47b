use monkey::adapters::pi::{
    ANSWER_MILLIS, FLUSH_MILLIS, Frame, PiAdapter, PiInput, SessionAction, SessionState, TranscriptHealth, branch_arguments,
    build_outcome, find_session_file, frame_line, looks_like_pr_body, opening_requests,
    parse_transcript, read_branch, read_records, scrubbed_variables, spawn_arguments,
};
use monkey::adapters::{EngineError, Outcome, OutcomeStatus, RunParams};
use monkey::json::{Doc, Json, JsonText, Part};
use monkey::sandbox::GitRun;

fn convert(value: serde_json::Value) -> Json {
    match value {
        serde_json::Value::Null => Json::Null,
        serde_json::Value::Bool(b) => Json::Bool(b),
        serde_json::Value::Number(n) => match n.as_i64() {
            Some(i) => Json::Int(i),
            None => Json::Number(n.to_string()),
        },
        serde_json::Value::String(s) => Json::Text(s),
        serde_json::Value::Array(items) => Json::Array(items.into_iter().map(convert).collect()),
        serde_json::Value::Object(members) => Json::Object(
            members
                .into_iter()
                .map(|(name, value)| (name, convert(value)))
                .collect(),
        ),
    }
}

/// Plays the engine: hands out lines until there are none left, and notes what
/// the session sends.
struct Play {
    sent: Vec<Json>,
    events: Vec<Json>,
}

fn play(inputs: Vec<PiInput>) -> (Play, Result<Outcome, EngineError>) {
    let mut state = SessionState::start();
    let mut notes = Play {
        sent: Vec::new(),
        events: Vec::new(),
    };
    for input in inputs {
        let action = match state.next_json_event(input) {
            Frame::Skip => continue,
            Frame::Fail(error) => return (notes, Err(error)),
            Frame::Quiet => {
                let (next, action) = state.on_quiet();
                state = next;
                action
            }
            Frame::Value(text) => {
                let raw = convert(serde_json::from_str(&text).unwrap());
                let (next, keep, action) = state.on_message(&raw);
                state = next;
                if keep {
                    notes.events.push(raw);
                }
                action
            }
        };
        match action {
            SessionAction::Read => {}
            SessionAction::Send(request) => notes.sent.push(request),
            SessionAction::Fail(error) => return (notes, Err(error)),
            SessionAction::Finish {
                terminal_error,
                stats,
                text,
            } => {
                let events = notes.events.iter().map(|event| event.copy()).collect();
                let outcome = build_outcome(
                    "/session",
                    "farm/x".to_string(),
                    events,
                    &stats,
                    &text,
                    terminal_error.as_deref(),
                );
                return (notes, outcome);
            }
        }
    }
    panic!("the session did not end");
}

fn line(text: &str) -> PiInput {
    PiInput::Line(text.to_string())
}

const SETTLED: &str = r#"{"type":"agent_settled"}"#;
const STATS: &str = r#"{"type":"response","id":"stats-1","command":"get_session_stats","success":true,"data":{"sessionFile":"/s/x.jsonl"}}"#;
const TEXT: &str = r#"{"type":"response","id":"text-1","command":"get_last_assistant_text","success":true,"data":{"text":"done"}}"#;

fn run_with_events(events: Vec<&str>) -> Result<Outcome, EngineError> {
    let mut inputs: Vec<PiInput> = events.into_iter().map(line).collect();
    inputs.push(PiInput::TimedOut);
    inputs.push(line(STATS));
    inputs.push(line(TEXT));
    play(inputs).1
}

#[test]
fn default_adapter_uses_pi_binary() {
    assert_eq!(PiAdapter::default().binary, "pi");
}

#[test]
fn pi_failure_tests_require_unix() {}

#[test]
fn malformed_agent_event_fails_the_run() {
    let (_, result) = play(vec![line("not-json")]);
    assert!(
        result
            .unwrap_err()
            .to_text()
            .contains("malformed pi event")
    );
}

#[test]
fn missing_agent_settled_event_fails_the_run() {
    let (_, result) = play(vec![PiInput::Closed]);
    assert_eq!(
        result.unwrap_err().to_text(),
        "pi exited before agent_settled"
    );
    let (_, result) = play(vec![PiInput::TimedOut]);
    assert_eq!(
        result.unwrap_err().to_text(),
        "timed out waiting for agent_settled"
    );
    let (_, result) = play(vec![PiInput::ReadFailed("broken pipe".to_string())]);
    assert_eq!(
        result.unwrap_err().to_text(),
        "RPC framing error: failed reading pi output: broken pipe"
    );
}

#[test]
fn unmodelled_event_is_collected_and_does_not_fail_the_run() {
    let outcome = run_with_events(vec![
        r#"{"type":"some_future_pi_event","whatever":1}"#,
        "   ",
        SETTLED,
    ])
    .expect("run should succeed despite the unknown event");

    assert_eq!(outcome.status, OutcomeStatus::Success);
    assert!(
        outcome
            .raw_events
            .iter()
            .any(|event| event.text_at("type") == Some("some_future_pi_event")),
        "unknown event was dropped from raw_events: {:?}",
        outcome.raw_events
    );
    assert_eq!(outcome.raw_events.len(), 2);
    assert_eq!(outcome.artifact_paths, vec!["/s/x.jsonl"]);
    assert_eq!(outcome.comment, "done");
    assert_eq!(outcome.branch, "farm/x");
    assert_eq!(outcome.session_dir, "/session");
}

#[test]
fn exhausted_retries_report_the_run_as_failed_not_ok() {
    let outcome = run_with_events(vec![
        r#"{"type":"auto_retry_end","success":false,"attempt":3,"finalError":"529 overloaded"}"#,
        SETTLED,
    ])
    .expect("a settled run is not an Err even when it failed");

    assert_eq!(outcome.status, OutcomeStatus::Error);
    assert!(
        outcome.summary.contains("529 overloaded"),
        "summary lost the engine reason: {}",
        outcome.summary
    );
    assert!(outcome.pr_body.is_empty());
    assert!(outcome.comment.is_empty());

    let outcome = run_with_events(vec![r#"{"type":"auto_retry_end","success":false}"#, SETTLED])
        .unwrap();
    assert_eq!(outcome.summary, "pi exhausted its automatic retries");
}

#[test]
fn rejected_rpc_surfaces_the_engine_reason() {
    let (_, result) = play(vec![
        line(SETTLED),
        PiInput::TimedOut,
        line(
            r#"{"type":"response","id":"stats-1","command":"get_session_stats","success":false,"error":"Model not found: x"}"#,
        ),
    ]);
    let error = result.unwrap_err().to_text();
    assert!(
        error.contains("Model not found: x"),
        "engine reason was discarded: {error}"
    );
    assert!(
        !error.contains("missing data object"),
        "still reporting the downstream symptom: {error}"
    );
}

#[test]
fn unattributed_rejection_is_still_matched_to_the_pending_request() {
    let (_, result) = play(vec![
        line(SETTLED),
        PiInput::Closed,
        line(
            r#"{"type":"response","command":"parse","success":false,"error":"Failed to parse command"}"#,
        ),
    ]);
    let error = result.unwrap_err().to_text();
    assert!(
        error.contains("Failed to parse command"),
        "unattributed rejection was skipped: {error}"
    );
    assert!(!error.contains("timed out"), "still a timeout: {error}");
}

#[test]
fn answers_to_other_requests_are_passed_over() {
    let (notes, result) = play(vec![
        line(SETTLED),
        line(r#"{"type":"trailing"}"#),
        PiInput::TimedOut,
        line(r#"{"type":"response","id":"other","success":false,"error":"no"}"#),
        line(r#"{"type":"response","success":true}"#),
        line(r#"{"type":"agent_end"}"#),
        line(STATS),
        line(TEXT),
    ]);
    assert_eq!(result.unwrap().comment, "done");
    assert_eq!(notes.events.len(), 2, "trailing events are kept");
    assert_eq!(notes.sent.len(), 2);
    assert_eq!(notes.sent[0].text_at("type"), Some("get_session_stats"));
    assert_eq!(notes.sent[0].text_at("id"), Some("stats-1"));
    assert_eq!(
        notes.sent[1].text_at("type"),
        Some("get_last_assistant_text")
    );
    assert_eq!(notes.sent[1].text_at("id"), Some("text-1"));
}

#[test]
fn unreadable_answer_is_a_hard_error() {
    let (_, result) = play(vec![
        line(SETTLED),
        PiInput::TimedOut,
        line(r#"{"type":"response","id":"stats-1"}"#),
    ]);
    assert_eq!(
        result.unwrap_err().to_text(),
        "RPC framing error: malformed pi response: missing field `success`"
    );
    let (_, result) = play(vec![line(SETTLED), PiInput::TimedOut, PiInput::TimedOut]);
    assert_eq!(
        result.unwrap_err().to_text(),
        "timed out waiting for response stats-1"
    );
    let (_, result) = play(vec![
        line(SETTLED),
        PiInput::TimedOut,
        line(STATS),
        PiInput::Closed,
    ]);
    assert_eq!(
        result.unwrap_err().to_text(),
        "pi exited before response text-1"
    );
    let (_, result) = play(vec![
        line(SETTLED),
        PiInput::TimedOut,
        line(STATS),
        line(r#"{"type":"response","id":"text-1","success":true,"data":{}}"#),
    ]);
    assert_eq!(
        result.unwrap_err().to_text(),
        "RPC framing error: pi text response missing data.text"
    );
}

#[test]
fn report_becomes_the_body_of_a_pull_request() {
    let text = r###"{"type":"response","id":"text-1","success":true,"data":{"text":"## Repro\nx\n## Fix\ny"}}"###;
    let (_, result) = play(vec![
        line(SETTLED),
        PiInput::TimedOut,
        line(STATS),
        line(text),
    ]);
    let outcome = result.unwrap();
    assert_eq!(outcome.pr_body, "## Repro\nx\n## Fix\ny");
    assert_eq!(outcome.comment, "");
    assert_eq!(outcome.summary, outcome.pr_body);
}

#[test]
fn resume_switches_into_the_latest_session_transcript() {
    let names = vec![
        "zzz.jsonl".to_string(),
        "aaa.jsonl".to_string(),
        "zzzz.txt".to_string(),
        ".jsonl".to_string(),
    ];
    let file = find_session_file("/data/session", &names);
    assert_eq!(file.as_deref(), Some("/data/session/zzz.jsonl"));
    let requests = opening_requests(file.as_deref(), "test prompt");
    assert_eq!(requests.len(), 2);
    assert_eq!(requests[0].text_at("type"), Some("switch_session"));
    assert_eq!(
        requests[0].text_at("sessionPath"),
        Some("/data/session/zzz.jsonl"),
        "the newest transcript must be the one resumed"
    );
    assert_eq!(requests[1].text_at("type"), Some("prompt"));
    assert_eq!(requests[1].text_at("message"), Some("test prompt"));
    assert_eq!(requests[1].text_at("id"), Some("monkey-1"));
}

#[test]
fn resume_without_a_transcript_still_runs() {
    let file = find_session_file("/data/session", &vec![".jsonl".to_string()]);
    assert_eq!(file, None);
    let requests = opening_requests(file.as_deref(), "test prompt");
    assert_eq!(requests.len(), 1);
    assert_eq!(requests[0].text_at("type"), Some("prompt"));
}

#[test]
fn transcript_with_a_complete_final_record_is_healthy() {
    let (entries, health) =
        parse_transcript(Some("{\"role\":\"user\"}\n{\"role\":\"assistant\"}\n"));

    assert_eq!(entries.len(), 2);
    assert_eq!(health, TranscriptHealth::Complete);
}

#[test]
fn truncated_tail_is_reported_without_losing_the_valid_entries() {
    let (entries, health) = parse_transcript(Some("{\"role\":\"user\"}\n{\"role\":\"assis"));

    assert_eq!(entries.len(), 1, "valid leading entry was dropped");
    assert_eq!(
        entries[0],
        JsonText {
            text: "{\"role\":\"user\"}".to_string()
        }
    );
    assert_eq!(health, TranscriptHealth::TruncatedTail);
}

#[test]
fn interior_corruption_is_reported_with_its_line_number() {
    let (entries, health) = parse_transcript(Some(
        "{\"role\":\"user\"}\nNOT JSON\n{\"role\":\"assistant\"}\n",
    ));

    match &health {
        TranscriptHealth::Malformed {
            line_number,
            reason,
        } => {
            assert_eq!(*line_number, 2, "wrong line blamed: {health:?}");
            assert!(!reason.is_empty(), "reason was dropped: {health:?}");
        }
        other => panic!("expected Malformed, got {other:?}"),
    }
    assert_eq!(
        entries.len(),
        2,
        "entries after the bad line were discarded"
    );
}

#[test]
fn interior_corruption_outranks_a_truncated_tail() {
    let (_, health) = parse_transcript(Some("NOT JSON\n{\"role\":\"user\"}\n{\"cut"));

    assert!(
        matches!(health, TranscriptHealth::Malformed { line_number: 1, .. }),
        "truncation masked the more serious interior corruption: {health:?}"
    );
}

#[test]
fn missing_session_file_is_not_reported_as_corruption() {
    let (entries, health) = parse_transcript(None);

    assert!(entries.is_empty());
    assert_eq!(health, TranscriptHealth::Complete);
}

fn member<'a>(doc: &'a Doc, name: &str) -> &'a Part {
    match doc {
        Doc::Members(members) => {
            &members.iter().find(|(other, _)| other == name).unwrap().1
        }
        other => panic!("expected members, got {other:?}"),
    }
}

#[test]
fn session_artifacts_expose_the_health_signal() {
    let artifacts = PiAdapter::new(None)
        .session_artifacts(Some("/s/session.jsonl"), Some("{\"role\":\"user\"}\n{\"cut"));

    assert!(matches!(
        member(&artifacts, "health"),
        Part::Value(health) if health.text_at("state") == Some("truncated_tail")
    ));
    assert_eq!(
        member(&artifacts, "messages"),
        &Part::Listed(vec![JsonText {
            text: "{\"role\":\"user\"}".to_string()
        }])
    );
    assert_eq!(
        member(&artifacts, "session_file"),
        &Part::Value(Json::Text("/s/session.jsonl".to_string()))
    );

    let artifacts =
        PiAdapter::new(None).session_artifacts(Some("/s/x.jsonl"), Some("oops\n{}\n"));
    match member(&artifacts, "health") {
        Part::Value(health) => {
            assert_eq!(health.text_at("state"), Some("malformed"));
            assert_eq!(health.get("line_number").unwrap().as_i64(), Some(1));
        }
        other => panic!("expected a value, got {other:?}"),
    }

    let none = PiAdapter::new(Some("pi2")).session_artifacts(None, None);
    assert_eq!(none, Doc::Whole(Part::Value(Json::Object(Vec::new()))));
}

#[test]
fn waits_of_a_session() {
    let settled = Json::Object(vec![Json::text_member("type", "agent_settled")]);
    let state = SessionState::start();
    assert_eq!(state.wait_millis(3600), 3_600_000);
    assert_eq!(state.wait_millis(u64::MAX), u64::MAX);
    assert!(!state.waits_anew());
    let (state, _, _) = state.on_message(&settled);
    assert_eq!(state.wait_millis(3600), FLUSH_MILLIS);
    assert_eq!(FLUSH_MILLIS, 50);
    assert!(state.waits_anew());
    let (state, action) = state.on_quiet();
    assert!(matches!(action, SessionAction::Send(_)));
    assert_eq!(state.wait_millis(3600), ANSWER_MILLIS);
    assert_eq!(ANSWER_MILLIS, 10_000);
    assert!(!state.waits_anew());
}

#[test]
fn blank_lines_of_a_transcript_do_not_count() {
    let lines = vec!["  ".to_string(), "x".to_string(), "y".to_string()];
    let errors = vec![Some("blank".to_string()), Some("bad".to_string()), None];
    let (entries, health) = read_records(&lines, &errors);
    assert_eq!(entries, vec![JsonText { text: "y".to_string() }]);
    assert_eq!(
        health,
        TranscriptHealth::Malformed {
            line_number: 2,
            reason: "bad".to_string()
        }
    );
}

#[test]
fn frames_of_given_lines() {
    assert!(matches!(frame_line(" \t", Some("x"), "event"), Frame::Skip));
    assert!(matches!(
        frame_line(" {} ", None, "event"),
        Frame::Value(text) if text == "{}"
    ));
    match frame_line("{", Some("EOF"), "response") {
        Frame::Fail(error) => assert_eq!(
            error.to_text(),
            "RPC framing error: malformed pi response: EOF"
        ),
        other => panic!("expected a failure, got {other:?}"),
    }
}

#[test]
fn engine_is_started_without_empty_options() {
    let mut params = RunParams {
        prompt: "p",
        worktree: "/wt",
        session_dir: "/s",
        model: "",
        thinking: "medium",
        provider: "",
        timeout: 3600,
    };
    assert_eq!(
        spawn_arguments(&params),
        vec![
            "--mode",
            "rpc",
            "--session-dir",
            "/s",
            "--name",
            "monkey",
            "--thinking",
            "medium"
        ]
    );
    params.model = "m";
    params.provider = "p";
    assert_eq!(
        spawn_arguments(&params)[6..],
        ["--model", "m", "--provider", "p", "--thinking", "medium"]
    );
}

#[test]
fn secrets_are_scrubbed_from_the_environment() {
    let names: Vec<String> = ["PATH", "GITHUB_TOKEN", "MONKEY_MODEL", "MY_GITHUB_X", "monkey_x"]
        .iter()
        .map(|name| name.to_string())
        .collect();
    assert_eq!(
        scrubbed_variables(&names),
        vec!["GITHUB_TOKEN", "MONKEY_MODEL"]
    );
}

#[test]
fn two_sections_look_like_a_report() {
    assert!(!looks_like_pr_body(""));
    assert!(!looks_like_pr_body("## Repro only"));
    assert!(looks_like_pr_body("## Repro ## Verification"));
}

#[test]
fn branch_is_what_git_names() {
    assert_eq!(
        branch_arguments("/wt"),
        vec!["-C", "/wt", "rev-parse", "--abbrev-ref", "HEAD"]
    );
    let ended = |success| GitRun::Ended {
        success,
        stdout: " farm/x\n".to_string(),
        stderr: String::new(),
    };
    assert_eq!(read_branch(&ended(true)), "farm/x");
    assert_eq!(read_branch(&ended(false)), "");
    assert_eq!(read_branch(&GitRun::NotStarted("no git".to_string())), "");
}

#[test]
fn engine_errors_in_words() {
    assert_eq!(
        EngineError::Io("disk full".to_string()).to_text(),
        "I/O failure: disk full"
    );
    assert_eq!(
        EngineError::Spawn {
            binary: "pi".to_string(),
            source: "not found".to_string()
        }
        .to_text(),
        "failed to spawn pi binary `pi`: not found"
    );
    assert_eq!(
        EngineError::EngineRejected {
            command: "c".to_string(),
            error: "e".to_string()
        }
        .to_text(),
        "pi rejected c: e"
    );
    assert_eq!(Outcome::default().status, OutcomeStatus::default());
    assert_eq!(OutcomeStatus::Success.to_text(), "ok");
    assert_eq!(OutcomeStatus::Error.to_text(), "error");
}

#[test]
fn test_pi_adapter_pi_failure_tests_require_unix() {}
