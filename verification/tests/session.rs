use orchid_core::cli::stop_session;
use orchid_core::config::hooks::HookStatus;
use orchid_core::convo::{self, get_convo_dir, get_convo_dir_from_config, get_convo_jsonl_path, ConvoMetadata, MetadataUpdate};
use orchid_core::hooks::{
    append_hooks, depth, dispatch_events, enter_depth, enter_hook_state, exit_depth, format_mode, hook_names,
    hook_timeout, id as event_id, kind as event_kind, leave_hook_state, monitor_args, resolve_executable, run as hook_run,
    working_dir, HookDefinition, HookMode,
};
use orchid_core::json::Json;
use orchid_core::log::{DiagLogger, LogLevel};
use orchid_core::model::{current_time, fresh_id, time_text, uuid_of_bytes, Event, Session, Status, TokenUsage, ToolCall};
use orchid_core::provider::dispatch::{append_call, append_result};
use orchid_core::session::{
    generate_id, get_session_dir, id_of_bytes, get_session_dir_from_config, get_session_jsonl_path,
    get_session_jsonl_path_from_config, is_id_format, resolve as resolve_session, update_metadata, update_state,
    ReadFailure, SessionMetadata, SessionState, SessionStore, SessionUpdate,
};
use orchid_core::store::{append_from, default_root, level_rank, preserve_external_policy, reconcile_worker, Store};
use orchid_core::model::Stamp;

/// A fresh event id and time.
fn stamp() -> Stamp {
    Stamp::fresh().expect("random source and clock")
}

/// The current time as an event timestamp.
fn now() -> String {
    stamp().timestamp
}

fn json(text: &str) -> Json {
    Json::parse(text).unwrap()
}

#[test]
fn session_ids_are_32_hex_digits() {
    assert!(is_id_format("0123456789abcdef0123456789ABCDEF"));
    assert!(!is_id_format("0123456789abcdef0123456789abcde"));
    assert!(!is_id_format("0123456789abcdef0123456789abcdeg"));
    let id = generate_id().unwrap();
    assert_eq!(id.len(), 32);
    assert!(is_id_format(&id));
    assert!(id.chars().all(|c| c.is_ascii_digit() || ('a'..='f').contains(&c)));
    assert_ne!(generate_id().unwrap(), id);
}

#[test]
fn session_store_paths() {
    let store = SessionStore::with_config_dir("/cfg");
    assert_eq!(store.base_path(), "/cfg/sessions");
    assert_eq!(store.transcript_path("abc"), "/cfg/sessions/abc/conversation.jsonl");
    assert_eq!(store.metadata_path("abc"), "/cfg/sessions/abc/metadata.json");
    assert_eq!(store.state_path("abc"), "/cfg/sessions/abc/state.json");
    assert_eq!(SessionStore::new().base_path(), "config/sessions");
    assert_eq!(SessionStore::with_base("/b".into()).session_path("x"), "/b/x");
    assert_eq!(get_session_jsonl_path("s"), "config/sessions/s/conversation.jsonl");
    assert_eq!(get_session_dir("s"), "config/sessions/s");
    assert_eq!(get_session_dir_from_config("s", "/c"), "/c/sessions/s");
    let id = "0123456789abcdef0123456789abcdef";
    assert_eq!(
        get_session_jsonl_path_from_config(id, "/c").unwrap(),
        format!("/c/sessions/{id}/conversation.jsonl")
    );
    assert_eq!(
        get_session_jsonl_path_from_config("../x", "/c").unwrap_err(),
        "invalid session ID: '../x'"
    );
}

#[test]
fn session_updates_replace_only_given_fields() {
    let state = SessionState {
        status: Status::Running,
        pid: Some(3),
        run_started_at: Some("t0".into()),
        last_run_at: None,
        last_message: None,
        token_estimate: None,
        allow_scope_escape: None,
        scope_exceptions: None,
        restrictions: Some(vec!["src".into()]),
    };
    let mut update = SessionUpdate::none();
    update.status = Some(Status::Idle);
    update.pid = Some(None);
    update.last_message = Some("bye".into());
    update.label = Some(Some("renamed".into()));
    let state = update_state(state, &update);
    assert_eq!(state.status, Status::Idle);
    assert_eq!(state.pid, None);
    assert_eq!(state.run_started_at.as_deref(), Some("t0"));
    assert_eq!(state.last_message.as_deref(), Some("bye"));
    assert_eq!(state.restrictions, Some(vec!["src".to_string()]));
    let meta = SessionMetadata {
        id: "id".into(),
        policy: Some("default".into()),
        policy_hash: None,
        prompt: None,
        label: None,
        working_dir: Some("/w".into()),
        created_at: "c".into(),
        updated_at: "c".into(),
    };
    let meta = update_metadata(meta, &update, "now".into());
    assert_eq!(meta.label.as_deref(), Some("renamed"));
    assert_eq!(meta.policy.as_deref(), Some("default"));
    assert_eq!(meta.updated_at, "now");
}

#[test]
fn conversation_paths_and_updates() {
    assert_eq!(get_convo_dir("c1", "/data"), "/data/conversations/c1");
    assert_eq!(get_convo_jsonl_path("c1", "/data"), "/data/conversations/c1/conversation.jsonl");
    assert_eq!(get_convo_dir_from_config("c1", "/cfg"), "/cfg/sessions/c1");
    let store = convo::Store::with_base("/b".into());
    assert_eq!(store.base_path(), "/b");
    let meta = ConvoMetadata {
        id: "c1".into(),
        label: None,
        persona: None,
        working_dir: None,
        created_at: "t".into(),
        updated_at: "t".into(),
        status: Status::Running,
        pid: Some(9),
        run_started_at: Some("t".into()),
        last_run_at: None,
        last_message: None,
        token_estimate: None,
        allow_scope_escape: None,
        scope_exceptions: None,
    };
    let settled = convo::reconcile_crashed(meta, "later".into());
    assert_eq!(settled.status, Status::Idle);
    assert_eq!(settled.pid, None);
    assert_eq!(settled.run_started_at, None);
    assert_eq!(settled.updated_at, "later");
    let started = convo::update(settled, convo::run_start_update(42, "t2".into()), "t2".into());
    assert_eq!(started.status, Status::Running);
    assert_eq!(started.pid, Some(42));
    let ended = convo::update(started, convo::run_end_update("t3".into()), "t3".into());
    assert_eq!(ended.last_run_at.as_deref(), Some("t3"));
    assert_eq!(ended.status, Status::Idle);
    let unchanged = convo::update(ended, MetadataUpdate::none(), "t4".into());
    assert_eq!(unchanged.last_run_at.as_deref(), Some("t3"));
    assert!(convo::detect_crashed(Status::Running, Some(1), false));
    assert!(!convo::detect_crashed(Status::Running, None, false));
    assert!(!convo::detect_crashed(Status::Idle, Some(1), false));
}

#[test]
fn debug_logs_are_filtered_by_configured_level() {
    let store = Store::new("/root".into());
    assert_eq!(store.log_filtered("s", "debug", "info"), None);
    assert_eq!(store.log_filtered("s", "info", "info"), Some("/root/sessions/s/logs.jsonl".to_string()));
    assert_eq!(store.log_both("s", "debug", "info"), Vec::<String>::new());
    assert_eq!(
        store.log_both("s", "error", "warning"),
        vec!["/root/sessions/s/logs.jsonl".to_string(), "/root/logs.jsonl".to_string()]
    );
    assert_eq!(level_rank("debug"), 0);
    assert_eq!(level_rank("verbose"), 1);
    assert_eq!(level_rank("error"), 3);
    assert_eq!(store.path("s"), "/root/sessions/s");
    assert_eq!(default_root(Some("/home/u".into())), "/home/u/.config/orchid");
    assert_eq!(default_root(None), ".orchid-simplified");
}

#[test]
fn event_stream_only_grows_on_save() {
    assert_eq!(append_from(1, 2), Ok(1));
    assert_eq!(append_from(2, 2), Ok(2));
    assert_eq!(append_from(3, 2), Err("event stream cannot shrink".to_string()));
}

#[test]
fn reconciles_dead_running_processes() {
    let mut session = Session::new(None, None, None).unwrap();
    session.metadata.status = Status::Running;
    session.metadata.pid = Some(999_999);
    let given = stamp();
    assert!(reconcile_worker(&mut session, false, given.clone()));
    assert_eq!(session.metadata.updated_at, given.timestamp);
    assert!(matches!(session.events.last(), Some(Event::Failure { event_id, .. }) if *event_id == given.event_id));
    assert_eq!(session.metadata.status, Status::Failed);
    assert_eq!(session.metadata.pid, None);
    assert_eq!(session.metadata.termination_reason.as_deref(), Some("worker process disappeared"));
    assert!(matches!(session.events.last(), Some(Event::Failure { message, .. }) if message == "worker process disappeared"));
    let mut alive = Session::new(None, None, None).unwrap();
    alive.metadata.status = Status::Running;
    assert!(!reconcile_worker(&mut alive, true, stamp()));
    assert_eq!(alive.metadata.status, Status::Running);
}

#[test]
fn stored_policy_wins_over_the_in_memory_one() {
    let mut session = Session::new(None, None, None).unwrap();
    let mut stored = orchid_core::config::Policy::empty();
    stored.connections.push("premium".into());
    preserve_external_policy(&mut session, Some(stored));
    assert_eq!(session.metadata.policy.connections, vec!["premium".to_string()]);
    preserve_external_policy(&mut session, None);
    assert_eq!(session.metadata.policy.connections, vec!["premium".to_string()]);
}

#[test]
fn stop_kills_worker_marks_session_idle_and_allows_follow_up() {
    let mut session = Session::new(None, None, None).unwrap();
    session.metadata.status = Status::Running;
    session.metadata.pid = Some(12);
    append_call(&mut session, "c1", "bash", &json(r#"{"cmd":"sleep 9"}"#), stamp());
    append_call(&mut session, "c2", "bash", &json(r#"{"cmd":"true"}"#), stamp());
    append_result(&mut session, "c2".into(), json("\"ok\""), stamp());
    assert_eq!(session.pending_tool_call_ids(), vec!["c1".to_string()]);
    let stamps = vec![stamp(), stamp()];
    let last = stamps[1].clone();
    stop_session(&mut session, stamps);
    assert_eq!(session.metadata.updated_at, last.timestamp);
    assert!(matches!(session.events.last(), Some(Event::Termination { event_id, .. }) if *event_id == last.event_id));
    assert_eq!(session.metadata.status, Status::Idle);
    assert_eq!(session.metadata.pid, None);
    assert_eq!(session.metadata.termination_reason.as_deref(), Some("cancelled by user"));
    assert!(session.pending_tool_call_ids().is_empty());
    assert!(matches!(session.events.last(), Some(Event::Termination { reason, .. }) if reason == "cancelled by user"));
    assert!(session.events.iter().any(|e| matches!(e, Event::ToolResult { call_id, content, .. }
        if call_id == "c1" && content.get_str("status") == Some(&Json::Str("terminated".into())))));
    session.append(Session::message("user", "follow-up".into(), stamp()), now());
    assert!(matches!(session.events.last(), Some(Event::Message { content, .. }) if content == "follow-up"));
}

fn message_event() -> Event {
    Session::message("user", "hello".into(), stamp())
}

fn tool_call_event() -> Event {
    Event::ToolCall {
        event_id: "e2".into(),
        timestamp: "t".into(),
        calls: vec![ToolCall { call_id: "c".into(), name: "bash".into(), input: Json::Null }],
        token_usage: TokenUsage::zero(),
    }
}

#[test]
fn events_fire_hooks_by_kind() {
    assert_eq!(hook_names(&message_event()), vec!["on-event".to_string()]);
    assert_eq!(hook_names(&tool_call_event()), vec!["on-event".to_string(), "on-tool-call".to_string()]);
    assert_eq!(
        append_hooks(true, 0, &message_event()),
        vec!["on-init".to_string(), "on-event".to_string()]
    );
    assert!(append_hooks(false, 8, &tool_call_event()).is_empty());
    assert_eq!(event_kind(&tool_call_event()), "tool_call");
    assert_eq!(event_id(&tool_call_event()), "e2");
    let events = vec![message_event(), tool_call_event()];
    assert_eq!(
        dispatch_events(&events, 1),
        vec![(1, "on-event".to_string()), (1, "on-tool-call".to_string())]
    );
    assert_eq!(dispatch_events(&events, 5), vec![]);
}

#[test]
fn hook_settings_resolve_executable_directory_and_timeout() {
    assert_eq!(resolve_executable("/root", "hook.sh", false, &None), "hook.sh");
    assert_eq!(resolve_executable("/root", "hooks/a.sh", false, &None), "/root/hooks/a.sh");
    assert_eq!(resolve_executable("/root", "./a.sh", false, &None), "/root/./a.sh");
    assert_eq!(resolve_executable("/root", "a.sh", true, &Some("/real/a.sh".into())), "/real/a.sh");
    assert_eq!(resolve_executable("/root", "/opt/h", false, &None), "/opt/h");
    assert_eq!(working_dir("/root", None), "/root");
    assert_eq!(working_dir("/root", Some("w")), "/root/w");
    assert_eq!(working_dir("/root", Some("/abs")), "/abs");
    let hook = HookDefinition { script: "h".into(), mode: HookMode::Sync, timeout_seconds: None };
    assert_eq!(hook_timeout(&hook, None), 30);
    assert_eq!(hook_timeout(&hook, Some(5)), 5);
    assert_eq!(format_mode(HookMode::Async), "async");
}

#[test]
fn hook_depth_counts_nesting() {
    assert_eq!(depth(&None), 0);
    assert_eq!(depth(&Some("3".into())), 3);
    assert_eq!(depth(&Some("x".into())), 0);
    assert_eq!(enter_depth(&Some("3".into())), "4");
    assert_eq!(enter_depth(&None), "1");
    assert_eq!(exit_depth(&Some("3".into())), Some("2".to_string()));
    assert_eq!(exit_depth(&Some("1".into())), None);
    assert_eq!(exit_depth(&Some("1".into())), None);
    assert_eq!(exit_depth(&None), None);
}

#[test]
fn hook_state_is_entered_and_restored() {
    let mut session = Session::new(None, None, None).unwrap();
    let previous = enter_hook_state(&mut session);
    assert_eq!(session.metadata.status, Status::HookRunning);
    assert!(leave_hook_state(&mut session, previous));
    assert_eq!(session.metadata.status, Status::Idle);
    session.metadata.status = Status::Cancelled;
    assert!(!leave_hook_state(&mut session, Status::Idle));
    assert_eq!(session.metadata.status, Status::Cancelled);
    assert_eq!(hook_run(&session).unwrap_err(), "session has no events");
}

#[test]
fn hook_run_arguments() {
    let args: Vec<String> = ["--id", "s", "--event", "on-event", "--script", "h.sh", "--input", "/tmp/i", "--timeout", "7"]
        .iter()
        .map(|s| s.to_string())
        .collect();
    let parsed = monitor_args(&args).unwrap();
    assert_eq!(parsed.timeout, Some(7));
    assert_eq!(parsed.script, "h.sh");
    let missing: Vec<String> = vec!["--id".into(), "s".into()];
    assert_eq!(monitor_args(&missing).unwrap_err(), "__hook-run requires --event");
}

#[test]
fn diagnostic_logger_filters_by_level() {
    let logger = DiagLogger::for_session("/s", LogLevel::from_config_str(Some("info")));
    assert_eq!(logger.debug("e", "d"), None);
    let entry = logger.warn("budget", "high").unwrap();
    assert_eq!(entry.path, "/s/orchid.log");
    assert_eq!(entry.level, "WARN");
    let debug = DiagLogger::for_session("/s", LogLevel::from_config_str(Some("debug")));
    assert!(debug.debug("e", "d").is_some());
    assert_eq!(DiagLogger::noop().error("e", "d"), None);
    assert_eq!(LogLevel::from_config_str(None), LogLevel::Info);
    let _ = HookStatus::Succeeded;
}

fn idle_state() -> SessionState {
    SessionState {
        status: Status::Idle,
        pid: Some(42),
        run_started_at: None,
        last_run_at: None,
        last_message: None,
        token_estimate: None,
        allow_scope_escape: None,
        scope_exceptions: None,
        restrictions: None,
    }
}

#[test]
fn state_reads_report_their_failures() {
    let store = SessionStore::with_base("/s".into());
    assert_eq!(store.status("a", Ok(idle_state())), Ok(Status::Idle));
    assert_eq!(store.pid("a", Ok(idle_state())), Ok(Some(42)));
    assert_eq!(store.status("a", Err(ReadFailure::NotFound)), Err("session state is missing: a".to_string()));
    assert_eq!(store.pid("a", Err(ReadFailure::Unreadable("denied".into()))), Err("failed to read state: denied".to_string()));
    assert_eq!(
        store.state("a", Err(ReadFailure::Malformed("eof".into()))),
        Err("invalid state JSON: eof".to_string())
    );
}

#[test]
fn resolving_checks_the_id_before_the_metadata() {
    let id = "0123456789abcdef0123456789ABCDEF";
    let meta = || SessionMetadata {
        id: id.into(),
        policy: None,
        policy_hash: None,
        prompt: None,
        label: Some("x".into()),
        working_dir: None,
        created_at: "c".into(),
        updated_at: "u".into(),
    };
    assert_eq!(resolve_session("nope", Err(ReadFailure::NotFound)), Err("invalid session ID: 'nope' (must be 32 hex characters)".to_string()));
    assert_eq!(resolve_session(id, Err(ReadFailure::NotFound)), Err(format!("session not found: {id}")));
    assert_eq!(resolve_session(id, Err(ReadFailure::Unreadable("io".into()))), Err("failed to read metadata: io".to_string()));
    assert_eq!(resolve_session(id, Err(ReadFailure::Malformed("bad".into()))), Err("invalid metadata JSON: bad".to_string()));
    assert_eq!(resolve_session(id, Ok(meta())), Ok(meta()));
}

#[test]
fn ids_are_the_lower_hex_of_their_bytes() {
    let bytes: Vec<u8> = vec![0x00, 0x01, 0x7f, 0x80, 0xab, 0xcd, 0xef, 0xff, 0x10, 0x20, 0x30, 0x40, 0x50, 0x60, 0x70, 0x90];
    let id = id_of_bytes(&bytes);
    assert_eq!(id, "00017f80abcdefff1020304050607090");
    assert!(is_id_format(&id));
    assert_eq!(id_of_bytes(&vec![]), "");
}

#[test]
fn uuids_are_version_four_text_of_their_bytes() {
    assert_eq!(uuid_of_bytes(&vec![0u8; 16]), "00000000-0000-4000-8000-000000000000");
    assert_eq!(uuid_of_bytes(&vec![0xffu8; 16]), "ffffffff-ffff-4fff-bfff-ffffffffffff");
    let bytes: Vec<u8> = (0u8..16).collect();
    assert_eq!(uuid_of_bytes(&bytes), "00010203-0405-4607-8809-0a0b0c0d0e0f");
}

#[test]
fn fresh_stamps_are_uuids_and_utc_times() {
    let id = fresh_id().unwrap();
    assert_eq!(id.len(), 36);
    assert_eq!(&id[14..15], "4");
    assert_ne!(fresh_id().unwrap(), id);
    let time = current_time().unwrap();
    assert!(time.ends_with('Z'));
    assert!(time.starts_with("20"));
    let s = stamp();
    assert_eq!(s.event_id.len(), 36);
    let session = Session::new(Some("l".into()), None, None).unwrap();
    assert_eq!(session.metadata.id.len(), 36);
    assert_eq!(session.metadata.created_at, session.metadata.updated_at);
    assert_eq!(session.metadata.label.as_deref(), Some("l"));
}

#[test]
fn times_are_written_as_rfc3339_utc() {
    assert_eq!(time_text(0, 0).unwrap(), "1970-01-01T00:00:00Z");
    assert_eq!(time_text(1_700_000_000, 500_000_000).unwrap(), "2023-11-14T22:13:20.500Z");
    assert!(time_text(u64::MAX, 0).is_none());
}
