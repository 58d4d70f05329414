//! The entries a run appends to a session's transcript, and where they go.
use crate::agent::history::{calls_view, copy_calls, ConvoEvent, ConvoEventV, ConvoToolCall, ToolResult};
use crate::model::Stamp;
use crate::paths::join_path;
use crate::session::{get_session_jsonl_path_from_config, id_format};
use vstd::prelude::*;

verus! {

/// One line of a transcript: a fresh id, the time, and the event.
#[derive(Debug, PartialEq)]
pub struct TranscriptEntry {
    pub event_id: String,
    pub timestamp: String,
    pub event: ConvoEvent,
}

/// Where the entries of session `id` go in the tree at `config_dir`.
pub open spec fn transcript_of(id: Seq<char>, config_dir: Seq<char>) -> Seq<char> {
    join_path(join_path(join_path(config_dir, "sessions"@), id), "conversation.jsonl"@)
}

/// The transcript of a session; an id of another form is refused.
pub fn transcript_path(session_id: &str, config_dir: &str) -> (r: Result<String, String>)
    ensures
        match r {
            Ok(p) => id_format(session_id@) && p@ == transcript_of(session_id@, config_dir@),
            Err(m) => !id_format(session_id@) && m@ == "invalid session ID: '"@ + session_id@ + "'"@,
        },
{
    get_session_jsonl_path_from_config(session_id, config_dir)
}

/// An entry of the stamp's id and time.
fn entry(event: ConvoEvent, stamp: Stamp) -> (e: TranscriptEntry)
    ensures
        e.event == event,
        e.event_id == stamp.event_id,
        e.timestamp == stamp.timestamp,
{
    TranscriptEntry { event_id: stamp.event_id, timestamp: stamp.timestamp, event }
}

/// What appending `event` to the transcript of `id` writes: the path and
/// the entry, with the stamp's id and time, or the refusal of a malformed
/// id.
pub open spec fn appends(
    r: Result<(String, TranscriptEntry), String>,
    id: Seq<char>,
    config_dir: Seq<char>,
    event: ConvoEventV,
    stamp: Stamp,
) -> bool {
    match r {
        Ok((p, e)) => id_format(id) && p@ == transcript_of(id, config_dir) && e.event@ == event && e.event_id
            == stamp.event_id && e.timestamp == stamp.timestamp,
        Err(m) => !id_format(id) && m@ == "invalid session ID: '"@ + id + "'"@,
    }
}

/// The assistant message to append to a session's transcript.
pub fn append_message(session_id: &str, config_dir: &str, content: &str, stamp: Stamp) -> (r: Result<(String, TranscriptEntry), String>)
    ensures
        appends(r, session_id@, config_dir@, ConvoEventV::Message("assistant"@, content@), stamp),
{
    let path = transcript_path(session_id, config_dir)?;
    Ok((path, entry(ConvoEvent::Message { role: "assistant".to_owned(), content: content.to_owned() }, stamp)))
}

/// The system message to append to a session's transcript.
pub fn append_system(session_id: &str, config_dir: &str, content: &str, stamp: Stamp) -> (r: Result<(String, TranscriptEntry), String>)
    ensures
        appends(r, session_id@, config_dir@, ConvoEventV::Message("system"@, content@), stamp),
{
    let path = transcript_path(session_id, config_dir)?;
    Ok((path, entry(ConvoEvent::Message { role: "system".to_owned(), content: content.to_owned() }, stamp)))
}

/// The tool calls to append to a session's transcript.
pub fn append_tool_call(session_id: &str, config_dir: &str, calls: &Vec<ConvoToolCall>, stamp: Stamp) -> (r: Result<
    (String, TranscriptEntry),
    String,
>)
    ensures
        appends(r, session_id@, config_dir@, ConvoEventV::ToolCall(calls_view(calls@)), stamp),
{
    let path = transcript_path(session_id, config_dir)?;
    Ok((path, entry(ConvoEvent::ToolCall { calls: copy_calls(calls) }, stamp)))
}

/// The tool result to append to a session's transcript.
pub fn append_tool_result(session_id: &str, config_dir: &str, tool_result: &ToolResult, stamp: Stamp) -> (r: Result<
    (String, TranscriptEntry),
    String,
>)
    ensures
        appends(r, session_id@, config_dir@, ConvoEventV::ToolResult(tool_result.call_id@, tool_result.content@), stamp),
{
    let path = transcript_path(session_id, config_dir)?;
    let copy = ToolResult { call_id: tool_result.call_id.clone(), content: tool_result.content.copy() };
    Ok((path, entry(ConvoEvent::ToolResult { tool_result: copy }, stamp)))
}

/// The reasoning to append to a session's transcript.
pub fn append_reasoning(session_id: &str, config_dir: &str, reasoning: &str, stamp: Stamp) -> (r: Result<
    (String, TranscriptEntry),
    String,
>)
    ensures
        appends(r, session_id@, config_dir@, ConvoEventV::Reasoning(reasoning@), stamp),
{
    let path = transcript_path(session_id, config_dir)?;
    Ok((path, entry(ConvoEvent::Reasoning { content: reasoning.to_owned() }, stamp)))
}

} // verus!
