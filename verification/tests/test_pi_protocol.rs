use monkey::adapters::pi_protocol::PiEvent;
use monkey::json::Json;
use tokio_util::bytes::BytesMut;
use tokio_util::codec::{Decoder, LinesCodec};

fn convert(value: serde_json::Value) -> Json {
    match value {
        serde_json::Value::Null => Json::Null,
        serde_json::Value::Bool(b) => Json::Bool(b),
        serde_json::Value::Number(n) => match n.as_i64() {
            Some(i) => Json::Int(i),
            None => Json::Number(n.to_string()),
        },
        serde_json::Value::String(s) => Json::Text(s),
        serde_json::Value::Array(items) => Json::Array(items.into_iter().map(convert).collect()),
        serde_json::Value::Object(members) => Json::Object(
            members
                .into_iter()
                .map(|(name, value)| (name, convert(value)))
                .collect(),
        ),
    }
}

fn parse(line: &str) -> Result<PiEvent, String> {
    let value = serde_json::from_str(line).map_err(|error| error.to_string())?;
    PiEvent::from_json(&convert(value))
}

#[test]
fn test_agent_settled_parses_to_its_own_variant() {
    assert!(matches!(
        parse(r#"{"type":"agent_settled"}"#).unwrap(),
        PiEvent::AgentSettled
    ));
}

#[test]
fn test_unmodelled_event_degrades_to_unknown_not_error() {
    let event = parse(r#"{"type":"some_future_pi_event","whatever":1}"#).unwrap();
    assert!(event.is_unknown());
}

#[test]
fn test_camel_case_fields_bind_to_snake_case_rust_names() {
    let event = parse(r#"{"type":"agent_end","messages":[],"willRetry":true}"#).unwrap();
    match event {
        PiEvent::AgentEnd { will_retry } => assert!(will_retry),
        other => panic!("expected AgentEnd, got {other:?}"),
    }

    let event = parse(
        r#"{"type":"auto_retry_end","success":false,"attempt":3,"finalError":"529 overloaded"}"#,
    )
    .unwrap();
    match event {
        PiEvent::AutoRetryEnd {
            success,
            final_error,
        } => {
            assert!(!success);
            assert_eq!(final_error.as_deref(), Some("529 overloaded"));
        }
        other => panic!("expected AutoRetryEnd, got {other:?}"),
    }
}

#[test]
fn test_response_envelope_keeps_success_command_and_data() {
    let event = parse(
        r#"{"type":"response","command":"get_session_stats","success":true,"id":"stats-1","data":{"sessionFile":"/x.jsonl"}}"#,
    )
    .unwrap();
    match event {
        PiEvent::Response(response) => {
            assert_eq!(response.id.as_deref(), Some("stats-1"));
            assert!(response.success);
            assert_eq!(response.command.as_deref(), Some("get_session_stats"));
            assert_eq!(response.data.text_at("sessionFile"), Some("/x.jsonl"));
        }
        other => panic!("expected Response, got {other:?}"),
    }
}

#[test]
fn test_rejected_response_keeps_the_engine_reason() {
    let event = parse(
        r#"{"type":"response","command":"set_model","success":false,"error":"Model not found: invalid/model"}"#,
    )
    .unwrap();
    match event {
        PiEvent::Response(response) => {
            assert!(!response.success);
            assert_eq!(
                response.error.as_deref(),
                Some("Model not found: invalid/model")
            );
        }
        other => panic!("expected Response, got {other:?}"),
    }
}

#[test]
fn test_rejected_response_without_id_still_parses() {
    let event = parse(
        r#"{"type":"response","command":"parse","success":false,"error":"Failed to parse command: Unexpected token..."}"#,
    )
    .unwrap();
    match event {
        PiEvent::Response(response) => {
            assert_eq!(response.id, None);
            assert!(!response.success);
            assert_eq!(response.command.as_deref(), Some("parse"));
        }
        other => panic!("expected Response, got {other:?}"),
    }
}

#[test]
fn test_response_without_success_is_a_hard_error() {
    let error = parse(r#"{"type":"response","id":"stats-1","data":{}}"#).unwrap_err();
    assert!(
        error.to_string().contains("missing field"),
        "unexpected error: {error}"
    );
}

#[test]
fn test_non_object_line_is_a_hard_error() {
    assert!(parse("not-json").is_err());
    assert!(parse(r#"{"no_type_field":1}"#).is_err());
}

#[test]
fn optional_fields_may_be_null_but_not_of_another_type() {
    let event = parse(r#"{"type":"auto_retry_end","success":true,"finalError":null}"#).unwrap();
    assert!(matches!(
        event,
        PiEvent::AutoRetryEnd {
            success: true,
            final_error: None
        }
    ));
    assert!(parse(r#"{"type":"auto_retry_end","success":true,"finalError":3}"#).is_err());
    assert!(parse(r#"{"type":"agent_end","willRetry":"yes"}"#).is_err());
    assert!(matches!(
        parse(r#"{"type":"agent_end"}"#).unwrap(),
        PiEvent::AgentEnd { will_retry: false }
    ));
}

#[test]
fn events_that_are_not_modelled_are_unknown() {
    for tag in [
        "extension_ui_request",
        "agent_start",
        "turn_start",
        "message_start",
        "message_update",
        "message_end",
        "turn_end",
    ] {
        let event = parse(&format!(r#"{{"type":"{tag}","message":{{"role":"x"}}}}"#)).unwrap();
        assert!(event.is_unknown(), "{tag}");
    }
    for line in [
        r#"{"type":"agent_settled"}"#,
        r#"{"type":"agent_end","willRetry":false}"#,
        r#"{"type":"response","success":true}"#,
    ] {
        assert!(!parse(line).unwrap().is_unknown(), "{line}");
    }
}

#[test]
fn fields_of_another_type_are_named() {
    for (value, described) in [
        (r#""yes""#, r#"string "yes""#),
        (r#""a\"b\n\u00e9""#, r#"string "a\"b\né""#),
        ("1", "integer `1`"),
        ("-7", "integer `-7`"),
        ("18446744073709551615", "integer `18446744073709551615`"),
        ("1.5", "floating point `1.5`"),
        ("1e300", "floating point `1e+300`"),
        ("1.5e-7", "floating point `1.5e-7`"),
        ("null", "null"),
        ("[1]", "sequence"),
        (r#"{"a":1}"#, "map"),
    ] {
        assert_eq!(
            parse(&format!(r#"{{"type":"agent_end","willRetry":{value}}}"#)).unwrap_err(),
            format!("invalid type: {described}, expected a boolean")
        );
        let alone: serde_json::Value = serde_json::from_str(value).unwrap();
        assert_eq!(
            serde_json::from_value::<bool>(alone).unwrap_err().to_string(),
            format!("invalid type: {described}, expected a boolean")
        );
    }
    for value in ["true", "false"] {
        assert_eq!(
            parse(&format!(r#"{{"type":"response","command":{value}}}"#)).unwrap_err(),
            format!("invalid type: boolean `{value}`, expected a string")
        );
    }
    assert_eq!(
        parse(r#"{"type":7}"#).unwrap_err(),
        "invalid type: integer `7`, expected variant identifier"
    );
    assert_eq!(
        parse("true").unwrap_err(),
        "invalid type: boolean `true`, expected internally tagged enum PiEvent"
    );
    assert_eq!(parse("{}").unwrap_err(), "missing field `type`");
}

#[test]
fn first_fault_is_that_of_the_first_field_by_name() {
    let fault = |fields: &str| {
        parse(&format!(r#"{{"type":"response",{fields}}}"#)).unwrap_err()
    };
    assert_eq!(
        fault(r#""success":1,"id":2,"error":3,"command":4"#),
        "invalid type: integer `4`, expected a string"
    );
    assert_eq!(
        fault(r#""success":1,"id":2,"error":3"#),
        "invalid type: integer `3`, expected a string"
    );
    assert_eq!(
        fault(r#""success":1,"id":2"#),
        "invalid type: integer `2`, expected a string"
    );
    assert_eq!(
        fault(r#""success":1"#),
        "invalid type: integer `1`, expected a boolean"
    );
    assert_eq!(
        fault(r#""id":2"#),
        "invalid type: integer `2`, expected a string"
    );
    assert_eq!(fault(r#""id":"x""#), "missing field `success`");
}

/// The lines of a run as the engine's protocol describes it: one prompt, one
/// turn without tools, and an answer of two characters.
fn session_lines() -> Vec<String> {
    let user = r#"{"role":"user","content":[{"type":"text","text":"Reply with OK."}]}"#;
    let reply = |text: &str| {
        format!(
            r#"{{"role":"assistant","content":[{{"type":"text","text":"{text}"}}],"usage":{{"input":12,"output":1,"cost":{{"total":1.5e-7}}}}}}"#
        )
    };
    let update = |kind: &str, text: &str| {
        format!(
            r#"{{"type":"message_update","assistantMessageEvent":{{"type":"{kind}","contentIndex":0}},"message":{}}}"#,
            reply(text)
        )
    };
    vec![
        r#"{"type":"extension_ui_request","id":"u-1","method":"setStatus"}"#.to_string(),
        r#"{"type":"extension_ui_request","id":"u-2","method":"setTitle"}"#.to_string(),
        r#"{"type":"response","id":"p-1","command":"prompt","success":true}"#.to_string(),
        r#"{"type":"agent_start"}"#.to_string(),
        r#"{"type":"turn_start"}"#.to_string(),
        format!(r#"{{"type":"message_start","message":{user}}}"#),
        format!(r#"{{"type":"message_end","message":{user}}}"#),
        format!(r#"{{"type":"message_start","message":{}}}"#, reply("")),
        update("thinking_start", ""),
        update("thinking_delta", ""),
        update("thinking_end", ""),
        update("text_start", ""),
        update("text_delta", "O"),
        update("text_delta", "OK"),
        update("text_end", "OK"),
        format!(r#"{{"type":"message_end","message":{}}}"#, reply("OK")),
        format!(
            r#"{{"type":"turn_end","message":{},"toolResults":[]}}"#,
            reply("OK")
        ),
        format!(
            r#"{{"type":"agent_end","messages":[{user},{}],"willRetry":false}}"#,
            reply("OK")
        ),
        r#"{"type":"extension_ui_request","id":"u-3","method":"setStatus"}"#.to_string(),
        r#"{"type":"agent_settled"}"#.to_string(),
    ]
}

#[test]
fn lines_of_a_session_are_modelled_or_unknown() {
    let lines = session_lines();
    let mut counts: std::collections::BTreeMap<(String, bool), u32> = Default::default();
    let mut settled = 0;
    for line in &lines {
        let event = parse(line).unwrap();
        if matches!(event, PiEvent::AgentSettled) {
            settled += 1;
        }
        let raw = convert(serde_json::from_str(line).unwrap());
        let tag = raw.text_at("type").unwrap().to_string();
        *counts.entry((tag, !event.is_unknown())).or_insert(0) += 1;
    }
    for (tag, modelled, expected) in [
        ("response", true, 1),
        ("agent_end", true, 1),
        ("agent_settled", true, 1),
        ("extension_ui_request", false, 3),
        ("agent_start", false, 1),
        ("turn_start", false, 1),
        ("message_start", false, 2),
        ("message_update", false, 7),
        ("message_end", false, 2),
        ("turn_end", false, 1),
    ] {
        assert_eq!(
            counts.remove(&(tag.to_string(), modelled)),
            Some(expected),
            "{tag}"
        );
    }
    assert!(counts.is_empty(), "{counts:?}");
    assert_eq!(settled, 1);
}

fn frames(stream: &str) -> Vec<String> {
    let mut codec = LinesCodec::new();
    let mut bytes = BytesMut::from(stream.as_bytes());
    let mut frames = Vec::new();
    while let Some(frame) = codec.decode(&mut bytes).unwrap() {
        frames.push(frame);
    }
    frames
}

#[test]
fn test_lines_codec_does_not_split_on_unicode_line_separators() {
    let payload = "first\u{2028}second\u{2029}third";
    let encoded = serde_json::to_string(&payload).expect("a string always serialises");
    let frames = frames(&format!("{encoded}\n"));
    assert_eq!(
        frames.len(),
        1,
        "LinesCodec split a JSON string on a Unicode separator"
    );
    let decoded: String = serde_json::from_str(&frames[0]).expect("the frame is one whole record");
    assert_eq!(decoded, payload);
}

#[test]
fn test_crlf_framing_yields_one_event_per_record() {
    let stream = "{\"type\":\"agent_end\",\"willRetry\":false}\r\n{\"type\":\"agent_settled\"}\r\n";
    let events: Vec<PiEvent> = frames(stream)
        .iter()
        .map(|frame| parse(frame.trim()).expect("CRLF must not corrupt the payload"))
        .collect();
    assert_eq!(events.len(), 2);
    assert!(matches!(events[0], PiEvent::AgentEnd { .. }));
    assert!(matches!(events[1], PiEvent::AgentSettled));
}
