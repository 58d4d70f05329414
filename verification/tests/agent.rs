use orchid_core::agent::budget::{check, estimate_from_size, estimate_paths, BudgetStatus, TokenBudget};
use orchid_core::agent::events::{append_message, append_reasoning, append_system, append_tool_result};
use orchid_core::agent::guard::{RunEnd, RunGuard};
use orchid_core::agent::history::{
    build_message_history, estimate_tokens_from_messages, replace_stale_in_value, ConvoEvent, ConvoToolCall, Message, ToolResult,
};
use orchid_core::agent::resolve::{resolve_persona_budget, resolve_system_prompt};
use orchid_core::agent::run::{
    after_response, before_send, budget_limits, empty_response, handle_response, nudge_message,
    should_warn_for_budget, terminate_for_budget, tool_failure_value, tool_turn_message, warn_interval,
    warning_message, BudgetAction, LoopState, Response, ResponseAction,
};
use orchid_core::agent::stream::{read_chunk_count, stream_step, StreamItem, StreamOutcome, StreamState, StreamStep};
use orchid_core::config::hooks::HookStatus;
use orchid_core::config::{ConfigDir, PolicyLimits};
use orchid_core::json::Json;
use orchid_core::model::Status;
use orchid_core::model::Stamp;

/// A fresh event id and time.
fn stamp() -> Stamp {
    Stamp::fresh().expect("random source and clock")
}

/// The current time as an event timestamp.
fn now() -> String {
    stamp().timestamp
}

fn json(text: &str) -> Json {
    Json::parse(text).unwrap()
}

#[test]
fn budget_status_judges_the_total() {
    let budget = TokenBudget { warn_threshold: 10, hard_limit: 20 };
    assert_eq!(check(Some(5), &budget), BudgetStatus::Within { total: 5 });
    assert_eq!(check(Some(10), &budget), BudgetStatus::Warning { total: 10 });
    assert_eq!(check(Some(20), &budget), BudgetStatus::Exceeded { total: 20 });
    assert_eq!(check(None, &budget).total(), 0);
    assert_eq!(estimate_from_size(10), 3);
    assert_eq!(estimate_paths("s").0, "config/sessions/s/conversation.jsonl");
    assert_eq!(estimate_paths("s").1, "config/sessions/s/session.jsonl");
}

#[test]
fn warnings_are_spaced_by_the_interval() {
    assert!(should_warn_for_budget(100, 80, None, 10));
    assert!(!should_warn_for_budget(79, 80, None, 10));
    assert!(!should_warn_for_budget(105, 80, Some(100), 10));
    assert!(should_warn_for_budget(110, 80, Some(100), 10));
    assert!(!should_warn_for_budget(u32::MAX - 1, 80, Some(u32::MAX - 5), 10));
    let limits = PolicyLimits { token_warn_threshold: Some(40_000), token_hard_limit: Some(80_000), max_steps: None };
    assert_eq!(warn_interval(&limits), 4_000);
    let unset = PolicyLimits { token_warn_threshold: None, token_hard_limit: Some(80_000), max_steps: None };
    assert_eq!(warn_interval(&unset), 4_000);
    let inverted = PolicyLimits { token_warn_threshold: Some(90), token_hard_limit: Some(10), max_steps: None };
    assert_eq!(warn_interval(&inverted), 0);
    let (limits, interval) = budget_limits(&TokenBudget { warn_threshold: 100, hard_limit: 200 });
    assert_eq!(limits.token_hard_limit, Some(200));
    assert_eq!(interval, 10);
}

#[test]
fn the_loop_warns_once_per_interval_and_stops_at_the_hard_limit() {
    let limits = PolicyLimits { token_warn_threshold: Some(100), token_hard_limit: Some(200), max_steps: None };
    let mut state = LoopState { last_warn_tokens: None };
    assert_eq!(after_response(&mut state, 50, &limits, 10), BudgetAction::Continue);
    assert_eq!(
        after_response(&mut state, 120, &limits, 10),
        BudgetAction::Warn(warning_message(120, 100, 200))
    );
    assert_eq!(state.last_warn_tokens, Some(120));
    assert_eq!(after_response(&mut state, 125, &limits, 10), BudgetAction::Continue);
    assert!(matches!(after_response(&mut state, 130, &limits, 10), BudgetAction::Warn(_)));
    match after_response(&mut state, 200, &limits, 10) {
        BudgetAction::Terminate(t) => {
            assert_eq!(t.error, "token hard limit exceeded: 200 tokens");
            assert_eq!(t.token_estimate, None);
        },
        other => panic!("unexpected {other:?}"),
    }
    assert_eq!(
        warning_message(120, 100, 200),
        "[WARNING] This session has consumed 120 tokens (warn threshold: 100). Consider wrapping up or the session will be terminated at 200 tokens."
    );
}

#[test]
fn budget_termination_before_sending() {
    let limits = PolicyLimits { token_warn_threshold: None, token_hard_limit: None, max_steps: None };
    assert!(before_send(119_999, &limits).is_none());
    let t = before_send(120_000, &limits).unwrap();
    assert_eq!(t.error, "token hard limit would be exceeded before sending: 120000 estimated tokens");
    assert_eq!(
        t.message,
        "[SESSION TERMINATED] Estimated token count (120000) would exceed hard limit (120000) before sending. \\\n                Start a new session to continue."
    );
    assert_eq!(t.token_estimate, Some(120_000));
    assert_eq!(terminate_for_budget(5, 4, false).log_event, "budget_exceeded");
}

#[test]
fn responses_lead_to_tools_completion_or_a_nudge() {
    let mut r = empty_response();
    assert_eq!(handle_response(&r), ResponseAction::Nudge);
    r.message = Some("  ".into());
    assert_eq!(handle_response(&r), ResponseAction::Nudge);
    assert_eq!(tool_turn_message(&r), None);
    r.message = Some("done".into());
    assert_eq!(handle_response(&r), ResponseAction::Complete);
    r.tool_calls = Some(vec![ConvoToolCall { id: "1".into(), name: "bash".into(), input: Json::Null }]);
    assert_eq!(handle_response(&r), ResponseAction::RunTools);
    assert_eq!(tool_turn_message(&r), Some("done".to_string()));
    assert!(nudge_message().starts_with("The previous response contained no text"));
    assert_eq!(tool_failure_value("boom"), Json::Str("Error: boom".into()));
}

#[test]
fn the_guard_finishes_a_run_once() {
    let mut guard = RunGuard::new("s", "/cfg");
    let plan = guard.finish(Status::Cancelled, None, Some("user".into()), now()).unwrap();
    assert_eq!(plan.end, RunEnd::Cancelled);
    assert_eq!(plan.payload.status, HookStatus::Cancelled);
    assert_eq!(plan.payload.session_id, "s");
    assert_eq!(plan.payload.reason.as_deref(), Some("user"));
    assert!(guard.finish(Status::Idle, None, None, now()).is_none());
    assert!(guard.fallback(now()).is_none());
    let mut dropped = RunGuard::new("s", "/cfg");
    let plan = dropped.fallback(now()).unwrap();
    assert_eq!(plan.end, RunEnd::Failed);
    assert_eq!(plan.payload.error.as_deref(), Some("unexpected run exit"));
    let mut ok = RunGuard::new("s", "/cfg");
    assert_eq!(ok.finish(Status::Idle, None, None, now()).unwrap().payload.status, HookStatus::Succeeded);
}

#[test]
fn transcript_entries_go_to_the_session_transcript() {
    let id = "0123456789abcdef0123456789abcdef";
    let (path, entry) = append_message(id, "/cfg", "hi", stamp()).unwrap();
    assert_eq!(path, format!("/cfg/sessions/{id}/conversation.jsonl"));
    assert_eq!(entry.event, ConvoEvent::Message { role: "assistant".into(), content: "hi".into() });
    assert_eq!(entry.event_id.len(), 36);
    let (_, system) = append_system(id, "/cfg", "note", stamp()).unwrap();
    assert_eq!(system.event, ConvoEvent::Message { role: "system".into(), content: "note".into() });
    let (_, reasoning) = append_reasoning(id, "/cfg", "why", stamp()).unwrap();
    assert_eq!(reasoning.event, ConvoEvent::Reasoning { content: "why".into() });
    let result = ToolResult { call_id: "c".into(), content: json("1") };
    assert!(append_tool_result(id, "/cfg", &result, stamp()).is_ok());
    assert_eq!(append_message("bad", "/cfg", "hi", stamp()).unwrap_err(), "invalid session ID: 'bad'");
}

#[test]
fn persona_resolution_is_retired() {
    let dir = ConfigDir::new("/cfg".into());
    assert_eq!(
        resolve_system_prompt("p", &dir).unwrap_err(),
        "legacy persona prompt resolution is unavailable; resolve a policy prompt instead"
    );
    let budget = TokenBudget { warn_threshold: 1, hard_limit: 2 };
    assert_eq!(resolve_persona_budget("p", &budget, &dir), budget);
}

#[test]
fn stream_state_counts_chunks() {
    assert_eq!(read_chunk_count(&Some("1700000000 41\n".into())), 41);
    assert_eq!(read_chunk_count(&Some("  7   9 extra".into())), 9);
    assert_eq!(read_chunk_count(&Some("only".into())), 0);
    assert_eq!(read_chunk_count(&None), 0);
    let mut state = StreamState::create("/s", &Some("1 41".into()));
    assert_eq!(state.path, "/s/stream.state");
    assert_eq!(state.chunk_count, 42);
    state.tick();
    assert_eq!(state.line(5), "5 43\n");
    assert_eq!(state.finish(), "/s/stream.state");
}

#[test]
fn stream_events_drive_the_run() {
    assert_eq!(stream_step(Ok(StreamItem::TextDelta("a".into()))), StreamStep::Tick);
    assert_eq!(stream_step(Err("reset".into())), StreamStep::Fail("provider error: reset".into()));
    assert_eq!(stream_step(Ok(StreamItem::Complete(empty_response()))), StreamStep::Finish(StreamOutcome::Empty));
    let mut r: Response = empty_response();
    r.message = Some("x".into());
    assert!(matches!(stream_step(Ok(StreamItem::Complete(r))), StreamStep::Finish(StreamOutcome::Complete(_))));
}

#[test]
fn stale_reads_are_replaced_in_history() {
    let read = |id: &str| ConvoEvent::ToolCall {
        calls: vec![ConvoToolCall { id: id.into(), name: "fs_read".into(), input: json(r#"{"paths":["a"]}"#) }],
    };
    let events = vec![
        ConvoEvent::Message { role: "system".into(), content: "sys".into() },
        ConvoEvent::Message { role: "user".into(), content: "go".into() },
        read("1"),
        ConvoEvent::ToolResult { tool_result: ToolResult { call_id: "1".into(), content: json(r#"{"a":"old"}"#) } },
        read("2"),
        ConvoEvent::ToolResult { tool_result: ToolResult { call_id: "2".into(), content: json(r#"{"a":"new"}"#) } },
        ConvoEvent::Reasoning { content: "hidden".into() },
    ];
    let (messages, tombstones) = build_message_history(&events);
    assert_eq!(tombstones, 1);
    assert_eq!(messages.len(), 5);
    assert_eq!(messages[0].role, "user");
    assert_eq!(messages[2].tool_result.as_ref().unwrap().content, json(r#"{"a":{"stale":true}}"#));
    assert_eq!(messages[4].tool_result.as_ref().unwrap().content, json(r#"{"a":"new"}"#));
    let stale = vec!["a".to_string()];
    assert_eq!(replace_stale_in_value(&json(r#"{"a":1,"b":2}"#), &stale), json(r#"{"a":{"stale":true},"b":2}"#));
}

#[test]
fn history_estimates_are_a_third_of_the_json_bytes() {
    assert_eq!(estimate_tokens_from_messages(&vec![]), 0);
    let user = Message { role: "user".into(), content: "ééé".into(), tool_calls: None, tool_result: None };
    assert_eq!(estimate_tokens_from_messages(&vec![user]), 24);
    let call = Message {
        role: "assistant".into(),
        content: String::new(),
        tool_calls: Some(vec![ConvoToolCall { id: "c1".into(), name: "fs_read".into(), input: Json::parse(r#"{"paths":["a"]}"#).unwrap() }]),
        tool_result: None,
    };
    let result = Message {
        role: "user".into(),
        content: String::new(),
        tool_calls: None,
        tool_result: Some(ToolResult { call_id: "c1".into(), content: Json::parse(r#"{"a":"x"}"#).unwrap() }),
    };
    assert_eq!(estimate_tokens_from_messages(&vec![call, result]), 73);
}
