use orchid_core::json::Json;
use orchid_core::model::{Event, Session, Status, Usage};
use orchid_core::provider::command::{command_args, finish_failure, finish_success, select_provider, ProviderChoice};
use orchid_core::provider::dispatch::{append_call, append_result, invoke_request, tool_error_content, ToolRequest};
use orchid_core::provider::lifecycle::{collect, enforce_token_limit, finish_turn, malformed, record_usage, TurnStep};
use orchid_core::provider::request::{estimate_request_tokens, o200k};
use orchid_core::provider::sse::{flush, handle, parse as parse_sse};
use orchid_core::provider::{tool_allowed, LocalProvider, StreamEvent};
use orchid_core::config::Policy;
use orchid_core::model::Stamp;

/// A fresh event id and time.
fn stamp() -> Stamp {
    Stamp::fresh().expect("random source and clock")
}

/// The current time as an event timestamp.
fn now() -> String {
    stamp().timestamp
}

fn json(text: &str) -> Json {
    Json::parse(text).unwrap()
}

#[test]
fn parses_provider_sse_text_and_done() {
    let events = parse_sse("data: {\"choices\":[{\"delta\":{\"content\":\"hi\"}}]}\ndata: [DONE]\n");
    assert_eq!(events, vec![StreamEvent::Text("hi".into()), StreamEvent::Done]);
}

#[test]
fn malformed_sse_is_explicit_and_fails_run() {
    assert!(matches!(parse_sse("data: {not-json}\n").as_slice(), [StreamEvent::Malformed(_)]));
    let events = vec![StreamEvent::Malformed("bad response".into())];
    let (_, _, calls) = collect(&events);
    assert!(malformed(&calls));
}

#[test]
fn assembles_multiple_fragmented_tool_calls() {
    let first = r#"{"choices":[{"delta":{"tool_calls":[{"index":0,"function":{"name":"bash","arguments":"{\"cmd\":\"ls\""}},{"index":1,"function":{"name":"fs_read","arguments":"{\"paths\":[\"a\"]"}}]}}]}"#;
    let second = r#"{"choices":[{"delta":{"tool_calls":[{"index":0,"function":{"arguments":"}"}},{"index":1,"function":{"arguments":"}"}}]}}]}"#;
    let events = parse_sse(&format!("data: {first}\ndata: {second}\ndata: [DONE]\n"));
    assert!(matches!(events[0], StreamEvent::ToolCall { ref name, .. } if name == "bash"));
    assert!(matches!(events[1], StreamEvent::ToolCall { ref name, .. } if name == "fs_read"));
    match &events[0] {
        StreamEvent::ToolCall { input, .. } => assert_eq!(*input, json(r#"{"cmd":"ls"}"#)),
        other => panic!("unexpected {other:?}"),
    }
}

#[test]
fn openai_chat_sse_maps_text_usage_tool_call_and_done() {
    let text = r#"{"choices":[{"delta":{"content":"hello"}}],"usage":{"prompt_tokens":12,"completion_tokens":3}}"#;
    let first = r#"{"choices":[{"delta":{"tool_calls":[{"index":0,"id":"call-1","function":{"name":"bash","arguments":"{\"cmd\":"}}]}}]}"#;
    let second = r#"{"choices":[{"delta":{"tool_calls":[{"index":0,"function":{"arguments":"\"pwd\"}"}}]}}]}"#;
    let events = parse_sse(&format!("data: {text}\ndata: {first}\ndata: {second}\ndata: [DONE]\n"));
    assert_eq!(events[0], StreamEvent::Usage(Usage { input: 12, output: 3, cached_input: 0 }));
    assert_eq!(events[1], StreamEvent::Text("hello".into()));
    assert!(events.contains(&StreamEvent::Text("hello".into())));
    assert!(events.contains(&StreamEvent::Usage(Usage { input: 12, output: 3, cached_input: 0 })));
    assert!(events.contains(&StreamEvent::ToolCall { name: "bash".into(), input: json(r#"{"cmd":"pwd"}"#) }));
    assert_eq!(events.last(), Some(&StreamEvent::Done));
}

#[test]
fn token_threshold_stops_before_provider_request() {
    let mut session = Session::new(None, None, None).unwrap();
    session.metadata.token_estimate = 2;
    let error = enforce_token_limit(&mut session, Some(1)).unwrap_err();
    assert_eq!(error, "token threshold exceeded: 2 > 1");
    assert_eq!(session.metadata.token_estimate, 2);
    assert!(session.metadata.termination_reason.is_some());
}

#[test]
fn negative_one_disables_token_threshold() {
    let mut session = Session::new(None, None, None).unwrap();
    session.metadata.token_estimate = u32::MAX;
    assert_eq!(enforce_token_limit(&mut session, Some(-1)), Ok(()));
    assert_eq!(enforce_token_limit(&mut session, None), Ok(()));
    assert!(session.metadata.termination_reason.is_none());
}

#[test]
fn cumulative_usage_does_not_count_toward_the_token_limit() {
    let mut session = Session::new(None, None, None).unwrap();
    session.metadata.token_estimate = 58_441;
    session.metadata.token_usage.marginal_input = 58_441;
    session.metadata.token_usage.cumulative_input = 1_134_441;
    assert_eq!(enforce_token_limit(&mut session, Some(120_000)), Ok(()));
    let step = finish_turn(
        &mut session,
        "allowed".into(),
        Some(Usage { input: 58_441, output: 1, cached_input: 0 }),
        vec![],
        0,
        stamp(),
    );
    assert_eq!(step, TurnStep::Answer("allowed".into()));
    assert_eq!(session.metadata.token_estimate, 58_441);
}

#[test]
fn provider_reported_usage_beats_local_estimate_and_tracks_cached_input() {
    let mut session = Session::new(None, None, None).unwrap();
    let step = finish_turn(
        &mut session,
        "done".into(),
        Some(Usage { input: 120, output: 30, cached_input: 80 }),
        vec![],
        7,
        stamp(),
    );
    assert_eq!(step, TurnStep::Answer("done".into()));
    assert_eq!(session.metadata.token_usage.marginal_input, 120);
    assert_eq!(session.metadata.token_estimate, 120);
    assert_eq!(session.metadata.token_usage.cumulative_input, 120);
    assert_eq!(session.metadata.token_usage.cumulative_output, 30);
    assert_eq!(session.metadata.token_usage.cumulative_cached_input, 80);
    assert_eq!(session.metadata.token_usage.method, "provider_reported");
    assert!(!session.events.iter().any(|event| matches!(event, Event::Usage { .. })));
}

#[test]
fn local_estimate_is_recorded_without_reported_usage() {
    let mut session = Session::new(None, None, None).unwrap();
    record_usage(&mut session, None, 9);
    assert_eq!(session.metadata.token_usage.marginal_input, 9);
    assert_eq!(session.metadata.token_usage.cumulative_input, 9);
    assert_eq!(session.metadata.token_usage.requests, 1);
    assert_eq!(session.metadata.token_usage.method, "local_tokenizer");
}

#[test]
fn turn_without_text_runs_tools_or_fails() {
    let mut session = Session::new(None, None, None).unwrap();
    let calls = vec![("fs_read".to_string(), json(r#"{"paths":["a"]}"#))];
    match finish_turn(&mut session, String::new(), None, calls, 3, stamp()) {
        TurnStep::RunTools(c) => assert_eq!(c.len(), 1),
        other => panic!("unexpected {other:?}"),
    }
    assert_eq!(
        finish_turn(&mut session, String::new(), None, vec![], 3, stamp()),
        TurnStep::Fail("provider returned no text".into())
    );
}

#[test]
fn collect_joins_text_and_keeps_the_last_usage() {
    let events = vec![
        StreamEvent::Text("a".into()),
        StreamEvent::Usage(Usage { input: 1, output: 1, cached_input: 0 }),
        StreamEvent::Text("b".into()),
        StreamEvent::Usage(Usage { input: 5, output: 2, cached_input: 1 }),
        StreamEvent::Done,
    ];
    let (text, usage, calls) = collect(&events);
    assert_eq!(text, "ab");
    assert_eq!(usage, Some(Usage { input: 5, output: 2, cached_input: 1 }));
    assert!(calls.is_empty());
}

#[test]
fn tool_failure_persists_correlated_error_result() {
    let mut session = Session::new(None, None, None).unwrap();
    append_call(&mut session, "call-1", "bash", &json(r#"{"cmd":"false"}"#), stamp());
    append_result(&mut session, "call-1".into(), tool_error_content("exit status 1"), stamp());
    assert!(session.events.iter().any(|event| matches!(event, Event::ToolResult { call_id, content, .. }
        if call_id == "call-1" && content.get_str("error").is_some())));
    assert!(session.pending_tool_call_ids().is_empty());
}

#[test]
fn provider_tool_requests_are_read_from_their_input() {
    let input = json(r#"{"cmd":"ls","paths":["a",1,"b"],"path":"f","edits":[]}"#);
    assert_eq!(invoke_request("bash", &input), Ok(ToolRequest::Bash { cmd: "ls".into() }));
    assert_eq!(
        invoke_request("fs_read", &input),
        Ok(ToolRequest::Read { paths: vec!["a".into(), "b".into()] })
    );
    assert_eq!(invoke_request("other", &input), Err("unknown provider tool".into()));
}

#[test]
fn worker_arguments_need_an_id_and_a_message() {
    let args: Vec<String> = ["--id", "abc", "hello", "--flag"].iter().map(|s| s.to_string()).collect();
    assert_eq!(command_args(&args), Ok(("abc".to_string(), "hello".to_string())));
    let no_id: Vec<String> = vec!["hello".into()];
    assert_eq!(command_args(&no_id), Err("__run requires --id".into()));
    let no_message: Vec<String> = vec!["--id".into(), "abc".into()];
    assert_eq!(command_args(&no_message), Err("__run requires a message".into()));
}

#[test]
fn failed_runs_terminate_only_for_the_token_threshold() {
    let mut session = Session::new(None, None, None).unwrap();
    assert!(finish_failure(&mut session, "token threshold exceeded: 2 > 1", stamp()));
    assert_eq!(session.metadata.status, Status::Terminated);
    assert!(matches!(session.events.last(), Some(Event::Termination { .. })));
    let mut other = Session::new(None, None, None).unwrap();
    assert!(!finish_failure(&mut other, "boom", stamp()));
    assert_eq!(other.metadata.status, Status::Failed);
    assert_eq!(other.metadata.termination_reason.as_deref(), Some("boom"));
    assert!(matches!(other.events.last(), Some(Event::Failure { message, .. }) if message == "boom"));
}

#[test]
fn a_cancelled_session_stays_cancelled_after_success() {
    let mut session = Session::new(None, None, None).unwrap();
    session.metadata.status = Status::Running;
    session.metadata.pid = Some(7);
    assert!(!finish_success(&mut session, Status::Cancelled));
    assert_eq!(session.metadata.status, Status::Running);
    assert!(finish_success(&mut session, Status::Running));
    assert_eq!(session.metadata.status, Status::Idle);
    assert_eq!(session.metadata.pid, None);
}

#[test]
fn provider_choice_and_tool_permission() {
    let mut policy = Policy::empty();
    assert_eq!(select_provider(&policy, false), Ok(ProviderChoice::Local));
    policy.connections.push("cheap".into());
    assert_eq!(select_provider(&policy, false), Err("configured connection unavailable".into()));
    assert_eq!(select_provider(&policy, true), Ok(ProviderChoice::Configured));
    policy.permissions.tools.push("bash".into());
    assert!(tool_allowed(&policy, "bash"));
    assert!(!tool_allowed(&policy, "fs_read"));
    assert_eq!(LocalProvider.reply("hi"), "local client: hi");
}

#[test]
fn token_estimate_uses_o200k_jsonl_tokens() {
    let mut session = Session::new(None, None, None).unwrap();
    session.append(Session::message("user", "123456789".into(), stamp()), now());
    let estimate = estimate_request_tokens(&o200k(), &session, "");
    let step = finish_turn(&mut session, "done".into(), None, vec![], estimate, stamp());
    assert_eq!(step, TurnStep::Answer("done".into()));
    assert!(session.metadata.token_estimate > 0);
    assert_eq!(session.metadata.token_usage.marginal_input, session.metadata.token_estimate);
    assert_eq!(session.metadata.token_usage.cumulative_input, u64::from(session.metadata.token_estimate));
    assert_eq!(session.metadata.token_usage.requests, 1);
    assert_eq!(session.metadata.token_usage.method, "local_tokenizer");
}

#[test]
fn failures_are_recorded_under_the_given_stamp() {
    let mut session = Session::new(None, None, None).unwrap();
    let given = stamp();
    finish_failure(&mut session, "boom", given.clone());
    match session.events.last() {
        Some(Event::Failure { event_id, timestamp, .. }) => {
            assert_eq!(event_id, &given.event_id);
            assert_eq!(timestamp, &given.timestamp);
        },
        other => panic!("unexpected {other:?}"),
    }
    assert_eq!(session.metadata.updated_at, given.timestamp);
}

#[test]
fn one_sse_payload_is_applied_and_calls_flush_at_the_end() {
    let mut events = Vec::new();
    let mut calls = Vec::new();
    handle(&json(r#"{"choices":[{"delta":{"content":"hi"}}]}"#), &mut events, &mut calls);
    assert_eq!(events, vec![StreamEvent::Text("hi".into())]);
    handle(
        &json(r#"{"choices":[{"delta":{"tool_calls":[{"index":0,"function":{"name":"bash","arguments":"{\"cmd\":"}}]}}]}"#),
        &mut events,
        &mut calls,
    );
    handle(
        &json(r#"{"choices":[{"delta":{"tool_calls":[{"index":0,"function":{"arguments":"\"ls\"}"}}]}}]}"#),
        &mut events,
        &mut calls,
    );
    assert_eq!(calls, vec![("bash".to_string(), r#"{"cmd":"ls"}"#.to_string())]);
    flush(&mut events, &mut calls);
    assert!(calls.is_empty());
    assert_eq!(events.last(), Some(&StreamEvent::ToolCall { name: "bash".into(), input: json(r#"{"cmd":"ls"}"#) }));
}
