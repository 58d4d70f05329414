//! Tool calls requested by a model: recording them in the session and
//! reading what each one asks for.
use crate::json::{json_as_str, json_get, json_seq_view, lemma_seq_view, Json, JsonV};
use crate::model::{Event, Session, Stamp, TokenUsage, ToolCall};
use crate::text::string_views;
use vstd::prelude::*;

verus! {

/// The strings among the elements of the array at `key` of `input`, in order
/// (what `input.get(key).and_then(as_array)` yields, strings only).
pub open spec fn string_items(input: JsonV, key: Seq<char>) -> Seq<Seq<char>> {
    match json_get(input, key) {
        Some(JsonV::Array(items)) => strings_in(items),
        _ => Seq::empty(),
    }
}

/// The strings among `items`, in order.
pub open spec fn strings_in(items: Seq<JsonV>) -> Seq<Seq<char>>
    decreases items.len(),
{
    if items.len() == 0 {
        Seq::empty()
    } else {
        let rest = strings_in(items.drop_last());
        match items.last() {
            JsonV::Str(s) => rest.push(s),
            _ => rest,
        }
    }
}

/// The strings of the array at `key` of `input`.
pub fn string_list(input: &Json, key: &str) -> (r: Vec<String>)
    ensures
        string_views(r@) == string_items(input@, key@),
{
    let mut out: Vec<String> = Vec::new();
    if let Some(Json::Array(items)) = input.get_str(key) {
        proof {
            lemma_seq_view(items@);
            assert(json_seq_view(items@).take(0) =~= Seq::<JsonV>::empty());
            assert(string_views(out@) =~= Seq::<Seq<char>>::empty());
        }
        let mut i: usize = 0;
        while i < items.len()
            invariant
                i <= items@.len(),
                json_seq_view(items@).len() == items@.len(),
                forall|k: int| 0 <= k < items@.len() ==> #[trigger] json_seq_view(items@)[k] == items@[k]@,
                string_views(out@) == strings_in(json_seq_view(items@).take(i as int)),
            decreases items@.len() - i,
        {
            proof {
                assert(json_seq_view(items@).take(i + 1).drop_last() =~= json_seq_view(items@).take(i as int));
            }
            let ghost prev = out@;
            if let Json::Str(s) = &items[i] {
                out.push(s.clone());
                assert(string_views(out@) =~= string_views(prev).push(s@));
            }
            i = i + 1;
        }
        assert(json_seq_view(items@).take(i as int) =~= json_seq_view(items@));
    }
    out
}

/// The string at `key` of `input`, or the empty string.
pub fn string_field(input: &Json, key: &str) -> (r: String)
    ensures
        r@ == (match json_get(input@, key@) {
            Some(x) => match json_as_str(x) {
                Some(s) => s,
                None => Seq::empty(),
            },
            None => Seq::empty(),
        }),
{
    match input.get_str(key) {
        Some(x) => match x.as_str() {
            Some(s) => s.clone(),
            None => String::new(),
        },
        None => String::new(),
    }
}

/// What a provider tool call asks for.
#[derive(Debug, PartialEq)]
pub enum ToolRequest {
    /// Run a shell command.
    Bash { cmd: String },
    /// Read files.
    Read { paths: Vec<String> },
    /// Apply edits to one file.
    Edit { path: String, edits: Json },
}

/// Reads a provider tool call: `bash` takes `cmd`, `fs_read` the strings of
/// `paths`, `fs_edit` `path` and `edits` (missing strings read as empty, a
/// missing `edits` as null); any other tool is unknown.
pub fn invoke_request(name: &str, input: &Json) -> (r: Result<ToolRequest, String>)
    ensures
        name@ == "bash"@ ==> (r matches Ok(ToolRequest::Bash { cmd }) && cmd@ == (match json_get(input@, "cmd"@) {
            Some(x) => match json_as_str(x) {
                Some(s) => s,
                None => Seq::empty(),
            },
            None => Seq::empty(),
        })),
        name@ == "fs_read"@ ==> (r matches Ok(ToolRequest::Read { paths }) && string_views(paths@)
            == string_items(input@, "paths"@)),
        name@ == "fs_edit"@ ==> (r matches Ok(ToolRequest::Edit { path, edits }) && path@ == (match json_get(
            input@,
            "path"@,
        ) {
            Some(x) => match json_as_str(x) {
                Some(s) => s,
                None => Seq::empty(),
            },
            None => Seq::empty(),
        }) && edits@ == (match json_get(input@, "edits"@) {
            Some(x) => x,
            None => JsonV::Null,
        })),
        name@ != "bash"@ && name@ != "fs_read"@ && name@ != "fs_edit"@ ==> (r matches Err(m) && m@
            == "unknown provider tool"@),
{
    proof {
        reveal_strlit("bash");
        reveal_strlit("fs_read");
        reveal_strlit("fs_edit");
        assert("bash"@.len() == 4);
        assert("fs_read"@.len() == 7);
        assert("fs_edit"@.len() == 7);
        assert("fs_read"@[3] != "fs_edit"@[3]);
    }
    if crate::text::str_eq(name, "bash") {
        Ok(ToolRequest::Bash { cmd: string_field(input, "cmd") })
    } else if crate::text::str_eq(name, "fs_read") {
        Ok(ToolRequest::Read { paths: string_list(input, "paths") })
    } else if crate::text::str_eq(name, "fs_edit") {
        let edits = match input.get_str("edits") {
            Some(e) => e.copy(),
            None => Json::Null,
        };
        Ok(ToolRequest::Edit { path: string_field(input, "path"), edits })
    } else {
        Err("unknown provider tool".to_owned())
    }
}

/// Records a tool call: a tool-call event holding the single call,
/// recorded with `stamp`.
pub fn append_call(session: &mut Session, call_id: &str, name: &str, input: &Json, stamp: Stamp)
    ensures
        final(session).events@.len() == old(session).events@.len() + 1,
        final(session).events@.drop_last() == old(session).events@,
        final(session).events@.last() matches Event::ToolCall { event_id, timestamp, calls, .. } && calls@.len()
            == 1 && calls@[0].call_id@ == call_id@ && calls@[0].name@ == name@ && calls@[0].input@ == input@
            && event_id == stamp.event_id && timestamp == stamp.timestamp,
        crate::model::same_but_updated(final(session).metadata, old(session).metadata),
        final(session).metadata.updated_at == stamp.timestamp,
{
    let call = ToolCall { call_id: call_id.to_owned(), name: name.to_owned(), input: input.copy() };
    let mut calls: Vec<ToolCall> = Vec::new();
    calls.push(call);
    let now = stamp.timestamp.clone();
    let event = Event::ToolCall {
        event_id: stamp.event_id,
        timestamp: stamp.timestamp,
        calls,
        token_usage: TokenUsage::zero(),
    };
    session.append(event, now);
}

/// Records a tool result for `call_id`, recorded with `stamp`.
pub fn append_result(session: &mut Session, call_id: String, content: Json, stamp: Stamp)
    ensures
        final(session).events@.len() == old(session).events@.len() + 1,
        final(session).events@.drop_last() == old(session).events@,
        final(session).events@.last() matches Event::ToolResult {
            event_id,
            timestamp,
            call_id: c,
            content: v,
            ..
        } && c == call_id && v == content && event_id == stamp.event_id && timestamp == stamp.timestamp,
        crate::model::same_but_updated(final(session).metadata, old(session).metadata),
        final(session).metadata.updated_at == stamp.timestamp,
{
    let now = stamp.timestamp.clone();
    let event = Event::ToolResult {
        event_id: stamp.event_id,
        timestamp: stamp.timestamp,
        call_id,
        content,
        token_usage: TokenUsage::zero(),
    };
    session.append(event, now);
}

/// The content recorded for a failed tool call: `{"error": message}`.
pub fn tool_error_content(message: &str) -> (r: Json)
    ensures
        r@ == JsonV::Object(seq![("error"@, JsonV::Str(message@))]),
{
    let mut members: Vec<(String, Json)> = Vec::new();
    members.push(("error".to_owned(), Json::Str(message.to_owned())));
    let r = Json::Object(members);
    proof {
        crate::json::lemma_members_view(members@);
        assert(crate::json::json_members_view(members@) =~= seq![("error"@, JsonV::Str(message@))]);
    }
    r
}

} // verus!
