use orchid_core::agent::events::TranscriptEntry;
use orchid_core::agent::history::ConvoEvent;
use orchid_core::hooks::HookState;
use orchid_core::log::{LogReader, LogWriter};
use orchid_core::model::{Session, Status};
use orchid_core::store::Store;

fn entry() -> TranscriptEntry {
    TranscriptEntry {
        event_id: "evt-1".into(),
        timestamp: "2024-01-01T00:00:00Z".into(),
        event: ConvoEvent::Message { role: "assistant".into(), content: "hi".into() },
    }
}

#[test]
fn appending_writes_one_line_and_returns_the_entry_id() {
    let written = LogWriter::append(&entry(), Ok("{\"a\":1}".into()));
    assert_eq!(written, Ok(("{\"a\":1}\n".to_string(), "evt-1".to_string())));
    let failed = LogWriter::append(&entry(), Err("boom".into()));
    assert_eq!(failed, Err("failed to serialize event: boom".to_string()));
}

#[test]
fn blank_transcript_lines_are_skipped() {
    let lines = LogReader::entry_lines("{\"a\":1}\n\n   \r\n{\"b\":2}\r\n\t\n{\"c\":3}");
    assert_eq!(lines, vec!["{\"a\":1}".to_string(), "{\"b\":2}".to_string(), "{\"c\":3}".to_string()]);
    assert!(LogReader::entry_lines("").is_empty());
    assert!(LogReader::entry_lines("\n \n").is_empty());
}

#[test]
fn hook_state_restores_the_previous_status() {
    let mut session = Session::new(None, None, None).unwrap();
    session.metadata.status = Status::Running;
    let state = HookState::enter(Store::new("/root/.orchid".into()), "abc", &mut session);
    assert_eq!(session.metadata.status, Status::HookRunning);
    assert_eq!(state.previous, Status::Running);
    assert_eq!(state.token_path, "/root/.orchid/sessions/abc/.hook-token");
    assert!(state.leave(&mut session));
    assert_eq!(session.metadata.status, Status::Running);
    assert!(!state.leave(&mut session));
    assert_eq!(session.metadata.status, Status::Running);
}

#[test]
fn hook_state_leaves_a_status_changed_meanwhile() {
    let mut session = Session::new(None, None, None).unwrap();
    let state = HookState::enter(Store::new("r".into()), "x", &mut session);
    session.metadata.status = Status::Cancelled;
    assert!(!state.leave(&mut session));
    assert_eq!(session.metadata.status, Status::Cancelled);
}
