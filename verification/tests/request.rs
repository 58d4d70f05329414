use orchid_core::json::Json;
use orchid_core::model::{Session, Usage};
use orchid_core::provider::dispatch::{append_call, append_result};
use orchid_core::provider::request::{
    client_request, codex_input, estimate_from_counts, request_body, estimate_request_tokens, messages, o200k, reply_text,
    request_line_texts, stream_events, count_tokens, ClientEvent,
};
use orchid_core::provider::transport::{request_headers, request_url, retry_delay_ms, status_message, Credential};
use orchid_core::provider::defs::{client_tools, tools};
use orchid_core::provider::StreamEvent;
use orchid_core::tools::tool_definitions;
use orchid_core::model::Stamp;

/// A fresh event id and time.
fn stamp() -> Stamp {
    Stamp::fresh().expect("random source and clock")
}

/// The current time as an event timestamp.
fn now() -> String {
    stamp().timestamp
}

fn json(text: &str) -> Json {
    Json::parse(text).unwrap()
}

fn conversation() -> Session {
    let mut session = Session::new(None, None, None).unwrap();
    session.append(Session::message("user", "list files".into(), stamp()), now());
    session.append(Session::message("assistant", "running ls".into(), stamp()), now());
    append_call(&mut session, "call-1", "bash", &json(r#"{"cmd":"ls"}"#), stamp());
    append_result(&mut session, "call-1".into(), json(r#"{"ok":true}"#), stamp());
    session
}

#[test]
fn chat_messages_follow_the_session() {
    let session = conversation();
    let all = messages(&session);
    assert_eq!(all.len(), 4);
    assert_eq!(all[0].role, "user");
    assert_eq!(all[0].content, "list files");
    assert_eq!(all[1].role, "assistant");
    assert_eq!(all[2].tool_calls.len(), 1);
    assert_eq!(all[2].tool_calls[0].name, "bash");
    assert_eq!(all[3].tool_result, Some(("call-1".to_string(), json(r#"{"ok":true}"#))));
}

#[test]
fn configured_provider_sends_persisted_user_message_once() {
    let mut session = Session::new(None, None, None).unwrap();
    session.append(Session::message("user", "only once".into(), stamp()), now());
    let request = client_request("test-model", "system", &[], &vec![], &session);
    assert_eq!(request.messages.len(), 1);
    assert_eq!(request.messages[0].role, "user");
    assert_eq!(request.messages[0].content, "only once");
}

#[test]
fn codex_input_of_an_empty_session_is_the_prompt() {
    let session = Session::new(None, None, None).unwrap();
    let input = codex_input(&session, "hello");
    assert_eq!(input.len(), 1);
    assert_eq!(input[0].get_str("role"), Some(&Json::Str("user".into())));
}

#[test]
fn codex_input_carries_calls_and_outputs() {
    let session = conversation();
    let input = codex_input(&session, "ignored once there is history");
    assert_eq!(input.len(), 4);
    assert_eq!(input[2].get_str("type"), Some(&Json::Str("function_call".into())));
    assert_eq!(input[3].get_str("type"), Some(&Json::Str("function_call_output".into())));
    assert_eq!(input[2].get_str("arguments"), Some(&Json::Str(r#"{"cmd":"ls"}"#.into())));
    assert_eq!(input[3].get_str("output"), Some(&Json::Str(r#"{"ok":true}"#.into())));
}

#[test]
fn client_events_map_to_stream_events_without_reasoning() {
    let events = stream_events(vec![
        ClientEvent::ReasoningDelta("thinking".into()),
        ClientEvent::TextDelta("he".into()),
        ClientEvent::TextDelta("llo".into()),
        ClientEvent::Usage(Usage { input: 4, output: 2, cached_input: 1 }),
        ClientEvent::Done,
    ]);
    assert_eq!(
        events,
        vec![
            StreamEvent::Text("he".into()),
            StreamEvent::Text("llo".into()),
            StreamEvent::Usage(Usage { input: 4, output: 2, cached_input: 1 }),
            StreamEvent::Done,
        ]
    );
    assert_eq!(reply_text(&events), "hello");
}

#[test]
fn request_estimate_sums_and_caps_counts() {
    assert_eq!(estimate_from_counts(&None), 0);
    assert_eq!(estimate_from_counts(&Some(vec![3, 4, 5])), 12);
    assert_eq!(estimate_from_counts(&Some(vec![usize::MAX, 1])), u32::MAX);
}

#[test]
fn request_lines_are_compact_json_with_a_newline() {
    let session = Session::new(None, None, None).unwrap();
    let lines = request_line_texts(&session, "be brief");
    assert_eq!(lines.len(), 1);
    assert!(lines[0].ends_with('\n'));
    assert_eq!(json(lines[0].trim_end()), json(r#"{"role":"system","content":"be brief"}"#));
    assert!(request_line_texts(&session, "").is_empty());
}

#[test]
fn local_token_estimate_counts_request_lines() {
    let session = conversation();
    let encoding = o200k();
    let with_system = estimate_request_tokens(&encoding, &session, "be brief");
    let without = estimate_request_tokens(&encoding, &session, "");
    assert!(without > 0);
    assert!(with_system > without);
    assert_eq!(estimate_request_tokens(&encoding, &Session::new(None, None, None).unwrap(), ""), 0);
    let lines = request_line_texts(&session, "");
    let counts = count_tokens(&encoding, &lines).unwrap();
    assert_eq!(counts.len(), 4);
    assert_eq!(u64::from(without), counts.iter().map(|c| *c as u64).sum::<u64>());
}

#[test]
fn codex_credentials_send_to_the_responses_endpoint() {
    let codex = Some(Credential::Codex { access_token: "tok".into(), account_id: "acct".into() });
    assert_eq!(request_url("https://chatgpt.com/backend-api/codex", &codex), "https://chatgpt.com/backend-api/codex/responses");
    assert_eq!(request_url("https://example.com/v1", &codex), "https://example.com/v1");
    let key = Some(Credential::ApiKey("k".into()));
    assert_eq!(request_url("https://x/codex", &key), "https://x/codex");
}

#[test]
fn credential_headers_come_before_the_connection_headers() {
    let extra = vec![("X-Test".to_string(), "1".to_string())];
    let headers = request_headers(&Some(Credential::ApiKey("secret".into())), &extra, "sess-1");
    assert_eq!(headers, vec![
        ("Authorization".to_string(), "Bearer secret".to_string()),
        ("X-Test".to_string(), "1".to_string()),
    ]);
    let codex = request_headers(&Some(Credential::Codex { access_token: "t".into(), account_id: "a".into() }), &vec![], "sess-1");
    assert_eq!(codex.len(), 6);
    assert_eq!(codex[1], ("ChatGPT-Account-ID".to_string(), "a".to_string()));
    assert_eq!(codex[5].0, "Session_Id");
    assert_eq!(codex[5].1, "sess-1");
    assert!(request_headers(&None, &vec![], "sess-1").is_empty());
}

#[test]
fn retries_back_off_then_give_up() {
    assert_eq!(retry_delay_ms(0), Some(50));
    assert_eq!(retry_delay_ms(1), Some(100));
    assert_eq!(retry_delay_ms(2), None);
}

#[test]
fn failed_status_reports_trimmed_and_cut_bodies() {
    assert_eq!(status_message(500, "  oops \n"), "HTTP status 500: oops");
    let long = "x".repeat(2100);
    let report = status_message(429, &long);
    assert_eq!(report, format!("HTTP status 429: {}...", "x".repeat(2000)));
}

#[test]
fn tool_definitions_follow_the_enabled_tools() {
    let enabled = vec!["fs_read".to_string(), "unknown".to_string(), "bash".to_string(), "fs_edit".to_string()];
    let defs = tools(&enabled);
    assert_eq!(defs.len(), 3);
    assert_eq!(defs[0].pointer("/function/name"), Some(&Json::Str("fs_read".into())));
    assert_eq!(defs[1].pointer("/function/name"), Some(&Json::Str("bash".into())));
    assert_eq!(
        defs[1],
        json(r#"{"type":"function","function":{"name":"bash","description":"Run a shell command.","parameters":{"type":"object","properties":{"cmd":{"type":"string"}},"required":["cmd"]}}}"#)
    );
    assert_eq!(
        defs[2].pointer("/function/parameters/required"),
        Some(&json(r#"["edits","path"]"#))
    );
    assert_eq!(defs[2].pointer("/function/parameters/properties/edits/minItems"), Some(&json("1")));
    assert!(tools(&[]).is_empty());
}

#[test]
fn input_schema_definitions_name_three_tools() {
    let defs = tool_definitions();
    assert_eq!(defs.len(), 3);
    assert_eq!(
        defs[0],
        json(r#"{"name":"bash","description":"Run a shell command.","input_schema":{"type":"object","properties":{"cmd":{"type":"string"}},"required":["cmd"]}}"#)
    );
    assert_eq!(defs[2].pointer("/input_schema/required"), Some(&json(r#"["path","edits"]"#)));
}

#[test]
fn clients_are_told_of_tools_by_name_description_and_parameters() {
    let tools = client_tools(&["bash".to_string(), "nope".to_string(), "fs_read".to_string()]);
    assert_eq!(tools.len(), 2);
    assert_eq!(tools[0].name, "bash");
    assert_eq!(tools[0].description, "Run a shell command.");
    assert_eq!(tools[0].parameters, json(r#"{"type":"object","properties":{"cmd":{"type":"string"}},"required":["cmd"]}"#));
    assert_eq!(tools[1].name, "fs_read");
}

#[test]
fn client_requests_carry_the_conversation_and_parameters() {
    let session = conversation();
    let params = vec![("temperature".to_string(), json("0"))];
    let request = client_request("m1", "be brief", &["bash".to_string()], &params, &session);
    assert_eq!(request.model, "m1");
    assert_eq!(request.system_prompt, "be brief");
    assert_eq!(request.messages.len(), 4);
    assert_eq!(request.messages[3].tool_result, Some(("call-1".to_string(), json(r#"{"ok":true}"#))));
    assert_eq!(request.tools.len(), 1);
    assert_eq!(request.params, params);
}

#[test]
fn request_bodies_follow_the_interface() {
    let session = Session::new(None, None, None).unwrap();
    let params = vec![("store".to_string(), json("true")), ("reasoning".to_string(), json(r#"{"effort":"low"}"#))];
    let codex = request_body("codex", false, "gpt", "sys", &session, "hi", &[], vec![json(r#"{"type":"function"}"#)], &params);
    assert_eq!(codex.pointer("/input/0/content/0/text"), Some(&Json::Str("hi".into())));
    assert_eq!(codex.get_str("instructions"), Some(&Json::Str("sys".into())));
    assert_eq!(codex.get_str("model"), Some(&Json::Str("gpt".into())));
    assert_eq!(codex.get_str("store"), Some(&Json::Bool(true)));
    assert_eq!(codex.get_str("stream"), Some(&Json::Bool(true)));
    assert_eq!(codex.get_str("tools"), Some(&json(r#"[{"type":"function"}]"#)));
    assert_eq!(codex.get_str("reasoning"), Some(&json(r#"{"effort":"low"}"#)));
    match &codex {
        Json::Object(members) => assert_eq!(members.len(), 7),
        other => panic!("unexpected {other:?}"),
    }
    let by_credential = request_body("openai", true, "gpt", "sys", &session, "hi", &[], vec![], &vec![]);
    assert_eq!(by_credential.get_str("instructions"), Some(&Json::Str("sys".into())));
    let anthropic = request_body("anthropic", false, "m2", "sys", &session, "hi", &[], vec![], &params);
    assert_eq!(
        anthropic,
        json(r#"{"max_tokens":1024,"messages":[{"content":"hi","role":"user"}],"model":"m2","stream":true}"#)
    );
    let chat = request_body("openai", false, "gpt", "sys", &session, "hi", &["bash".to_string()], vec![], &params);
    assert_eq!(chat.pointer("/messages/0/role"), Some(&Json::Str("system".into())));
    assert_eq!(chat.pointer("/messages/1/content"), Some(&Json::Str("hi".into())));
    assert_eq!(chat.pointer("/tools/0/function/name"), Some(&Json::Str("bash".into())));
    assert_eq!(chat.get_str("reasoning"), None);
}

#[test]
fn a_recorded_call_is_pending_until_its_result() {
    let mut session = Session::new(None, None, None).unwrap();
    append_call(&mut session, "c1", "bash", &json("{}"), stamp());
    append_call(&mut session, "c2", "fs_read", &json(r#"{"paths":[]}"#), stamp());
    assert_eq!(session.pending_tool_call_ids(), vec!["c1".to_string(), "c2".to_string()]);
    append_result(&mut session, "c1".into(), json("{}"), stamp());
    assert_eq!(session.pending_tool_call_ids(), vec!["c2".to_string()]);
    append_result(&mut session, "c2".into(), json("{}"), stamp());
    assert!(session.pending_tool_call_ids().is_empty());
}

#[test]
fn timestamps_are_utc_rfc3339() {
    let t = orchid_core::model::current_time().unwrap();
    assert!(t.len() >= 20);
    assert!(t.ends_with('Z'));
    assert_eq!(&t[4..5], "-");
    assert_eq!(&t[10..11], "T");
}
