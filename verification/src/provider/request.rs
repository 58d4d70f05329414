//! What a provider is sent and what its client returns: the chat messages of
//! a session, the input items of the responses interface, the request's
//! token estimate, and the events of a client's stream.
use crate::json::{json_members_view, json_seq_view, json_text, lemma_members_view, lemma_seq_view, serde_json_text, Json, JsonV};
use crate::model::{Event, Session, ToolCall, Usage};
use crate::json::{set_member, with_member};
use crate::provider::defs::{client_tools, client_tools_of, item, member, text, tool_defs, tool_view, tools, ToolDefinition};
use crate::provider::{events_view, StreamEvent, StreamEventV};
use crate::text::{concat, push_str, str_eq, string_views};
use vstd::prelude::*;

verus! {

/// A tool call in mathematical form: id, name, input.
pub type CallV = (Seq<char>, Seq<char>, JsonV);

/// The views of tool calls.
pub open spec fn calls_view(c: Seq<ToolCall>) -> Seq<CallV> {
    c.map_values(|x: ToolCall| (x.call_id@, x.name@, x.input@))
}

/// A copy of a list of tool calls.
pub fn copy_calls(cs: &Vec<ToolCall>) -> (r: Vec<ToolCall>)
    ensures
        calls_view(r@) == calls_view(cs@),
{
    let mut out: Vec<ToolCall> = Vec::new();
    let mut i: usize = 0;
    while i < cs.len()
        invariant
            i <= cs@.len(),
            calls_view(out@) == calls_view(cs@).take(i as int),
        decreases cs@.len() - i,
    {
        let ghost prev = out@;
        let c = ToolCall { call_id: cs[i].call_id.clone(), name: cs[i].name.clone(), input: cs[i].input.copy() };
        out.push(c);
        assert(calls_view(out@) =~= calls_view(prev).push((cs@[i as int].call_id@, cs@[i as int].name@, cs@[i as int].input@)));
        i = i + 1;
        assert(calls_view(out@) =~= calls_view(cs@).take(i as int));
    }
    assert(calls_view(cs@).take(i as int) =~= calls_view(cs@));
    out
}

/// One message of a chat request.
#[derive(Debug, PartialEq)]
pub struct ChatMessage {
    pub role: String,
    pub content: String,
    pub tool_calls: Vec<ToolCall>,
    pub tool_result: Option<(String, Json)>,
}

/// A chat message in mathematical form.
pub struct ChatMessageV {
    pub role: Seq<char>,
    pub content: Seq<char>,
    pub tool_calls: Seq<CallV>,
    pub tool_result: Option<(Seq<char>, JsonV)>,
}

impl View for ChatMessage {
    type V = ChatMessageV;

    open spec fn view(&self) -> ChatMessageV {
        ChatMessageV {
            role: self.role@,
            content: self.content@,
            tool_calls: calls_view(self.tool_calls@),
            tool_result: match self.tool_result {
                Some((id, c)) => Some((id@, c@)),
                None => None,
            },
        }
    }
}

/// The views of chat messages.
pub open spec fn chat_view(v: Seq<ChatMessage>) -> Seq<ChatMessageV> {
    v.map_values(|m: ChatMessage| m@)
}

/// The chat message an event contributes: messages as they are, tool calls
/// as an assistant message carrying them, tool results as a `tool` message
/// with the result's JSON text; other events contribute none.
pub open spec fn message_of(e: Event) -> Option<ChatMessageV> {
    match e {
        Event::Message { role, content, .. } => Some(
            ChatMessageV { role: role@, content: content@, tool_calls: Seq::empty(), tool_result: None },
        ),
        Event::ToolCall { calls, .. } => Some(
            ChatMessageV { role: "assistant"@, content: Seq::empty(), tool_calls: calls_view(calls@), tool_result: None },
        ),
        Event::ToolResult { call_id, content, .. } => Some(
            ChatMessageV {
                role: "tool"@,
                content: serde_json_text(content@),
                tool_calls: Seq::empty(),
                tool_result: Some((call_id@, content@)),
            },
        ),
        _ => None,
    }
}

/// The chat messages of a session's events, in order.
pub open spec fn session_messages(events: Seq<Event>) -> Seq<ChatMessageV>
    decreases events.len(),
{
    if events.len() == 0 {
        Seq::empty()
    } else {
        let rest = session_messages(events.drop_last());
        match message_of(events.last()) {
            Some(m) => rest.push(m),
            None => rest,
        }
    }
}

/// A tool result reaches the model as a `tool` message carrying it: the
/// message of a tool-result event has the role `tool`, the event's call id
/// and content, and that content's JSON text.
pub proof fn law_tool_result_message(e: Event)
    requires
        e is ToolResult,
    ensures
        match e {
            Event::ToolResult { call_id, content, .. } => message_of(e) matches Some(m) && m.role == "tool"@
                && m.tool_result == Some((call_id@, content@)) && m.content == serde_json_text(content@)
                && m.tool_calls.len() == 0,
            _ => false,
        },
{
}

/// Tool results travel in tool messages: every chat message of a session
/// that carries a tool result has the role `tool`.
pub proof fn law_results_only_in_tool_messages(events: Seq<Event>)
    ensures
        forall|k: int|
            0 <= k < session_messages(events).len() && (#[trigger] session_messages(events)[k]).tool_result is Some
                ==> session_messages(events)[k].role == "tool"@,
    decreases events.len(),
{
    if events.len() > 0 {
        law_results_only_in_tool_messages(events.drop_last());
    }
}

/// The chat message of one event.
fn event_message(e: &Event) -> (r: Option<ChatMessage>)
    ensures
        match r {
            Some(m) => message_of(*e) == Some(m@),
            None => message_of(*e) is None,
        },
        *e is ToolResult ==> (r matches Some(m) && m.role@ == "tool"@),
{
    match e {
        Event::Message { role, content, .. } => {
            let m = ChatMessage { role: role.clone(), content: content.clone(), tool_calls: Vec::new(), tool_result: None };
            assert(calls_view(m.tool_calls@) =~= Seq::<CallV>::empty());
            Some(m)
        },
        Event::ToolCall { calls, .. } => {
            let m = ChatMessage {
                role: "assistant".to_owned(),
                content: String::new(),
                tool_calls: copy_calls(calls),
                tool_result: None,
            };
            Some(m)
        },
        Event::ToolResult { call_id, content, .. } => {
            let m = ChatMessage {
                role: "tool".to_owned(),
                content: json_text(content),
                tool_calls: Vec::new(),
                tool_result: Some((call_id.clone(), content.copy())),
            };
            assert(calls_view(m.tool_calls@) =~= Seq::<CallV>::empty());
            Some(m)
        },
        _ => None,
    }
}

/// The chat messages of a session.
pub fn messages(session: &Session) -> (r: Vec<ChatMessage>)
    ensures
        chat_view(r@) == session_messages(session.events@),
        forall|k: int| 0 <= k < r@.len() && (#[trigger] r@[k]).tool_result is Some ==> r@[k].role@ == "tool"@,
{
    let events = &session.events;
    let mut out: Vec<ChatMessage> = Vec::new();
    let mut i: usize = 0;
    assert(events@.take(0) =~= Seq::<Event>::empty());
    assert(chat_view(out@) =~= Seq::<ChatMessageV>::empty());
    while i < events.len()
        invariant
            i <= events@.len(),
            chat_view(out@) == session_messages(events@.take(i as int)),
        decreases events@.len() - i,
    {
        assert(events@.take(i + 1).drop_last() =~= events@.take(i as int));
        assert(events@.take(i + 1).last() == events@[i as int]);
        let ghost prev = out@;
        if let Some(m) = event_message(&events[i]) {
            out.push(m);
            assert(chat_view(out@) =~= chat_view(prev).push(out@.last()@));
        }
        i = i + 1;
    }
    assert(events@.take(i as int) =~= events@);
    proof {
        law_results_only_in_tool_messages(session.events@);
        assert forall|k: int| 0 <= k < out@.len() && (#[trigger] out@[k]).tool_result is Some implies out@[k].role@
            == "tool"@ by {
            assert(chat_view(out@)[k] == out@[k]@);
        }
    }
    out
}

/// An object of two members.
pub open spec fn pair_object(a: Seq<char>, x: JsonV, b: Seq<char>, y: JsonV) -> JsonV {
    JsonV::Object(seq![(a, x), (b, y)])
}

/// Builds an object of two members.
fn object2(a: &str, x: Json, b: &str, y: Json) -> (r: Json)
    ensures
        r@ == pair_object(a@, x@, b@, y@),
{
    let mut m: Vec<(String, Json)> = Vec::new();
    m.push((a.to_owned(), x));
    m.push((b.to_owned(), y));
    proof {
        lemma_members_view(m@);
        assert(json_members_view(m@) =~= seq![(a@, x@), (b@, y@)]);
    }
    Json::Object(m)
}

/// A message item of the responses interface: the role, and the text as its
/// one content part, typed `output_text` for the assistant and `input_text`
/// otherwise.
pub open spec fn message_item(role: Seq<char>, text: Seq<char>) -> JsonV {
    pair_object(
        "role"@,
        JsonV::Str(role),
        "content"@,
        JsonV::Array(
            seq![
                pair_object(
                    "type"@,
                    JsonV::Str(if role == "assistant"@ { "output_text"@ } else { "input_text"@ }),
                    "text"@,
                    JsonV::Str(text),
                ),
            ],
        ),
    )
}

/// Builds a message item.
fn message_item_of(role: &str, text: &str) -> (r: Json)
    ensures
        r@ == message_item(role@, text@),
{
    let kind = if str_eq(role, "assistant") {
        "output_text"
    } else {
        "input_text"
    };
    let part = object2("type", Json::Str(kind.to_owned()), "text", Json::Str(text.to_owned()));
    let mut parts: Vec<Json> = Vec::new();
    parts.push(part);
    proof {
        lemma_seq_view(parts@);
        assert(json_seq_view(parts@) =~= seq![parts@[0]@]);
    }
    object2("role", Json::Str(role.to_owned()), "content", Json::Array(parts))
}

/// The item of a tool call: `function_call` with its id, name and the JSON
/// text of its input.
pub open spec fn call_item(c: CallV) -> JsonV {
    JsonV::Object(
        seq![
            ("type"@, JsonV::Str("function_call"@)),
            ("call_id"@, JsonV::Str(c.0)),
            ("name"@, JsonV::Str(c.1)),
            ("arguments"@, JsonV::Str(serde_json_text(c.2))),
        ],
    )
}

/// The item of a tool result: `function_call_output` with the call's id and
/// the JSON text of the result.
pub open spec fn output_item(call_id: Seq<char>, content: JsonV) -> JsonV {
    JsonV::Object(
        seq![
            ("type"@, JsonV::Str("function_call_output"@)),
            ("call_id"@, JsonV::Str(call_id)),
            ("output"@, JsonV::Str(serde_json_text(content))),
        ],
    )
}

/// The input items an event contributes.
pub open spec fn items_of(e: Event) -> Seq<JsonV> {
    match e {
        Event::Message { role, content, .. } => seq![message_item(role@, content@)],
        Event::ToolCall { calls, .. } => calls_view(calls@).map_values(|c: CallV| call_item(c)),
        Event::ToolResult { call_id, content, .. } => seq![output_item(call_id@, content@)],
        _ => Seq::empty(),
    }
}

/// The input items of a session's events, in order.
pub open spec fn session_items(events: Seq<Event>) -> Seq<JsonV>
    decreases events.len(),
{
    if events.len() == 0 {
        Seq::empty()
    } else {
        session_items(events.drop_last()) + items_of(events.last())
    }
}

/// The input of a responses request: the session's items, or the prompt as
/// a user message where the session has none.
pub open spec fn codex_input_of(events: Seq<Event>, prompt: Seq<char>) -> Seq<JsonV> {
    if session_items(events).len() == 0 {
        seq![message_item("user"@, prompt)]
    } else {
        session_items(events)
    }
}

/// Appends the items of one event.
fn push_items(out: &mut Vec<Json>, e: &Event)
    ensures
        json_seq_view(final(out)@) == json_seq_view(old(out)@) + items_of(*e),
{
    proof {
        lemma_seq_view(out@);
    }
    let ghost start = json_seq_view(out@);
    match e {
        Event::Message { role, content, .. } => {
            out.push(message_item_of(role.as_str(), content.as_str()));
            proof {
                lemma_seq_view(out@);
                assert(json_seq_view(out@) =~= start + items_of(*e));
            }
        },
        Event::ToolCall { calls, .. } => {
            let ghost cv = calls_view(calls@);
            let mut i: usize = 0;
            assert(cv.take(0).map_values(|c: CallV| call_item(c)) =~= Seq::<JsonV>::empty());
            assert(json_seq_view(out@) =~= start + cv.take(0).map_values(|c: CallV| call_item(c)));
            while i < calls.len()
                invariant
                    i <= calls@.len(),
                    cv == calls_view(calls@),
                    json_seq_view(out@) == start + cv.take(i as int).map_values(|c: CallV| call_item(c)),
                decreases calls@.len() - i,
            {
                let c = &calls[i];
                let mut m: Vec<(String, Json)> = Vec::new();
                m.push(("type".to_owned(), Json::Str("function_call".to_owned())));
                m.push(("call_id".to_owned(), Json::Str(c.call_id.clone())));
                m.push(("name".to_owned(), Json::Str(c.name.clone())));
                m.push(("arguments".to_owned(), Json::Str(json_text(&c.input))));
                proof {
                    lemma_members_view(m@);
                    assert(json_members_view(m@) =~= seq![
                        ("type"@, JsonV::Str("function_call"@)),
                        ("call_id"@, JsonV::Str(c.call_id@)),
                        ("name"@, JsonV::Str(c.name@)),
                        ("arguments"@, JsonV::Str(serde_json_text(c.input@))),
                    ]);
                    assert(cv[i as int] == (c.call_id@, c.name@, c.input@));
                }
                let ghost prev = out@;
                out.push(Json::Object(m));
                proof {
                    lemma_seq_view(prev);
                    lemma_seq_view(out@);
                    assert(json_seq_view(out@) =~= json_seq_view(prev).push(call_item(cv[i as int])));
                    assert(cv.take(i + 1).map_values(|c: CallV| call_item(c)) =~= cv.take(i as int).map_values(
                        |c: CallV| call_item(c),
                    ).push(call_item(cv[i as int])));
                }
                i = i + 1;
            }
            assert(cv.take(i as int) =~= cv);
        },
        Event::ToolResult { call_id, content, .. } => {
            let mut m: Vec<(String, Json)> = Vec::new();
            m.push(("type".to_owned(), Json::Str("function_call_output".to_owned())));
            m.push(("call_id".to_owned(), Json::Str(call_id.clone())));
            m.push(("output".to_owned(), Json::Str(json_text(content))));
            proof {
                lemma_members_view(m@);
                assert(json_members_view(m@) =~= seq![
                    ("type"@, JsonV::Str("function_call_output"@)),
                    ("call_id"@, JsonV::Str(call_id@)),
                    ("output"@, JsonV::Str(serde_json_text(content@))),
                ]);
            }
            out.push(Json::Object(m));
            proof {
                lemma_seq_view(out@);
                assert(json_seq_view(out@) =~= start + items_of(*e));
            }
        },
        _ => {
            assert(json_seq_view(out@) =~= start + items_of(*e));
        },
    }
}

/// The input items of a responses request for a session and prompt.
pub fn codex_input(session: &Session, prompt: &str) -> (r: Vec<Json>)
    ensures
        json_seq_view(r@) == codex_input_of(session.events@, prompt@),
{
    let events = &session.events;
    let mut out: Vec<Json> = Vec::new();
    let mut i: usize = 0;
    assert(events@.take(0) =~= Seq::<Event>::empty());
    assert(json_seq_view(out@) =~= Seq::<JsonV>::empty());
    while i < events.len()
        invariant
            i <= events@.len(),
            json_seq_view(out@) == session_items(events@.take(i as int)),
        decreases events@.len() - i,
    {
        assert(events@.take(i + 1).drop_last() =~= events@.take(i as int));
        assert(events@.take(i + 1).last() == events@[i as int]);
        push_items(&mut out, &events[i]);
        i = i + 1;
    }
    assert(events@.take(i as int) =~= events@);
    proof {
        lemma_seq_view(out@);
    }
    if out.len() == 0 {
        let mut only: Vec<Json> = Vec::new();
        only.push(message_item_of("user", prompt));
        proof {
            lemma_seq_view(only@);
            assert(json_seq_view(only@) =~= seq![message_item("user"@, prompt@)]);
        }
        return only;
    }
    out
}

/// What a model client is asked: the model, the system prompt, the
/// conversation, the tools it may call and extra parameters.
#[derive(Debug, PartialEq)]
pub struct ClientRequest {
    pub model: String,
    pub system_prompt: String,
    pub messages: Vec<ChatMessage>,
    pub tools: Vec<ToolDefinition>,
    pub params: Vec<(String, Json)>,
}

/// The request a client provider sends: the messages the session holds,
/// the prompt among them once it has been saved there, and the enabled
/// tools as the client is told of them.
pub fn client_request(
    model: &str,
    system_prompt: &str,
    enabled: &[String],
    params: &Vec<(String, Json)>,
    session: &Session,
) -> (r: ClientRequest)
    ensures
        r.model@ == model@,
        r.system_prompt@ == system_prompt@,
        chat_view(r.messages@) == session_messages(session.events@),
        r.tools@.map_values(|t: ToolDefinition| tool_view(t)) == client_tools_of(
            tool_defs(enabled@.map_values(|s: String| s@)),
        ),
        json_members_view(r.params@) == json_members_view(params@),
{
    ClientRequest {
        model: model.to_owned(),
        system_prompt: system_prompt.to_owned(),
        messages: messages(session),
        tools: client_tools(enabled),
        params: crate::config::copy_members(params),
    }
}

/// `params` set into an object's members one by one, each replacing a
/// member of its name (`Map::insert`).
pub open spec fn merged(members: Seq<(Seq<char>, JsonV)>, params: Seq<(Seq<char>, JsonV)>) -> Seq<(Seq<char>, JsonV)>
    decreases params.len(),
{
    if params.len() == 0 {
        members
    } else {
        with_member(merged(members, params.drop_last()), params.last().0, params.last().1)
    }
}

/// Sets each parameter into an object's members.
fn merge_params(members: &mut Vec<(String, Json)>, params: &Vec<(String, Json)>)
    ensures
        json_members_view(final(members)@) == merged(json_members_view(old(members)@), json_members_view(params@)),
{
    let ghost start = json_members_view(members@);
    let ghost pv = json_members_view(params@);
    proof {
        lemma_members_view(params@);
    }
    let mut i: usize = 0;
    assert(pv.take(0) =~= Seq::<(Seq<char>, JsonV)>::empty());
    while i < params.len()
        invariant
            i <= params@.len(),
            pv == json_members_view(params@),
            pv.len() == params@.len(),
            forall|k: int| 0 <= k < params@.len() ==> #[trigger] pv[k] == (params@[k].0@, params@[k].1@),
            json_members_view(members@) == merged(start, pv.take(i as int)),
        decreases params@.len() - i,
    {
        assert(pv.take(i + 1).drop_last() =~= pv.take(i as int));
        assert(pv.take(i + 1).last() == pv[i as int]);
        set_member(members, params[i].0.clone(), params[i].1.copy());
        i = i + 1;
    }
    assert(pv.take(i as int) =~= pv);
}

/// The body of a responses request: the model, the instructions, the
/// session as input items, the tools, not stored and streamed, with the
/// connection's parameters set over it.
pub open spec fn codex_body(
    model: Seq<char>,
    instructions: Seq<char>,
    events: Seq<Event>,
    prompt: Seq<char>,
    codex_tools: Seq<JsonV>,
    params: Seq<(Seq<char>, JsonV)>,
) -> JsonV {
    JsonV::Object(
        merged(
            seq![
                ("input"@, JsonV::Array(codex_input_of(events, prompt))),
                ("instructions"@, JsonV::Str(instructions)),
                ("model"@, JsonV::Str(model)),
                ("store"@, JsonV::Bool(false)),
                ("stream"@, JsonV::Bool(true)),
                ("tools"@, JsonV::Array(codex_tools)),
            ],
            params,
        ),
    )
}

/// The body of a messages request: the prompt alone, at most 1024 tokens
/// of reply, streamed.
pub open spec fn anthropic_body(model: Seq<char>, prompt: Seq<char>) -> JsonV {
    JsonV::Object(
        seq![
            ("max_tokens"@, JsonV::Number(Some(1024), "1024"@)),
            ("messages"@, JsonV::Array(seq![JsonV::Object(seq![("content"@, JsonV::Str(prompt)), ("role"@, JsonV::Str("user"@))])])),
            ("model"@, JsonV::Str(model)),
            ("stream"@, JsonV::Bool(true)),
        ],
    )
}

/// The body of a chat request: the system prompt and the prompt, streamed,
/// with the enabled tools.
pub open spec fn chat_body(model: Seq<char>, system_prompt: Seq<char>, prompt: Seq<char>, enabled: Seq<Seq<char>>) -> JsonV {
    JsonV::Object(
        seq![
            ("messages"@, JsonV::Array(seq![
                JsonV::Object(seq![("content"@, JsonV::Str(system_prompt)), ("role"@, JsonV::Str("system"@))]),
                JsonV::Object(seq![("content"@, JsonV::Str(prompt)), ("role"@, JsonV::Str("user"@))]),
            ])),
            ("model"@, JsonV::Str(model)),
            ("stream"@, JsonV::Bool(true)),
            ("tools"@, JsonV::Array(tool_defs(enabled))),
        ],
    )
}

/// A request speaks the responses interface where the connection's
/// interface is `codex` or its credential is a Codex one.
pub open spec fn is_codex(interface: Seq<char>, codex_credential: bool) -> bool {
    interface == "codex"@ || codex_credential
}

/// The body of a streamed request for a connection: the responses body
/// where it speaks that interface, the messages body for `anthropic`, and
/// the chat body otherwise.
pub open spec fn body_of(
    interface: Seq<char>,
    codex_credential: bool,
    model: Seq<char>,
    system_prompt: Seq<char>,
    events: Seq<Event>,
    prompt: Seq<char>,
    enabled: Seq<Seq<char>>,
    codex_tools: Seq<JsonV>,
    params: Seq<(Seq<char>, JsonV)>,
) -> JsonV {
    if is_codex(interface, codex_credential) {
        codex_body(model, system_prompt, events, prompt, codex_tools, params)
    } else if interface == "anthropic"@ {
        anthropic_body(model, prompt)
    } else {
        chat_body(model, system_prompt, prompt, enabled)
    }
}

/// A message object of a role and a text.
fn role_message(role: &str, content: &str) -> (r: Json)
    ensures
        r@ == JsonV::Object(seq![("content"@, JsonV::Str(content@)), ("role"@, JsonV::Str(role@))]),
{
    let mut m: Vec<(String, Json)> = Vec::new();
    member(&mut m, "content", text(content));
    member(&mut m, "role", text(role));
    assert(json_members_view(m@) =~= seq![("content"@, JsonV::Str(content@)), ("role"@, JsonV::Str(role@))]);
    Json::Object(m)
}

/// The body of the streamed request a connection sends for a prompt;
/// `codex_tools` are the tool definitions of the responses interface.
pub fn request_body(
    interface: &str,
    codex_credential: bool,
    model: &str,
    system_prompt: &str,
    session: &Session,
    prompt: &str,
    enabled: &[String],
    codex_tools: Vec<Json>,
    params: &Vec<(String, Json)>,
) -> (r: Json)
    ensures
        r@ == body_of(
            interface@,
            codex_credential,
            model@,
            system_prompt@,
            session.events@,
            prompt@,
            enabled@.map_values(|s: String| s@),
            json_seq_view(codex_tools@),
            json_members_view(params@),
        ),
{
    if str_eq(interface, "codex") || codex_credential {
        let ghost tv = json_seq_view(codex_tools@);
        let mut m: Vec<(String, Json)> = Vec::new();
        member(&mut m, "input", Json::Array(codex_input(session, prompt)));
        member(&mut m, "instructions", text(system_prompt));
        member(&mut m, "model", text(model));
        member(&mut m, "store", Json::Bool(false));
        member(&mut m, "stream", Json::Bool(true));
        member(&mut m, "tools", Json::Array(codex_tools));
        assert(json_members_view(m@) =~= seq![
            ("input"@, JsonV::Array(codex_input_of(session.events@, prompt@))),
            ("instructions"@, JsonV::Str(system_prompt@)),
            ("model"@, JsonV::Str(model@)),
            ("store"@, JsonV::Bool(false)),
            ("stream"@, JsonV::Bool(true)),
            ("tools"@, JsonV::Array(tv)),
        ]);
        merge_params(&mut m, params);
        Json::Object(m)
    } else if str_eq(interface, "anthropic") {
        let mut messages: Vec<Json> = Vec::new();
        item(&mut messages, role_message("user", prompt));
        let mut m: Vec<(String, Json)> = Vec::new();
        member(&mut m, "max_tokens", Json::Number(crate::json::JsonNumber { unsigned: Some(1024), text: "1024".to_owned() }));
        member(&mut m, "messages", Json::Array(messages));
        member(&mut m, "model", text(model));
        member(&mut m, "stream", Json::Bool(true));
        assert(json_members_view(m@) =~= seq![
            ("max_tokens"@, JsonV::Number(Some(1024), "1024"@)),
            ("messages"@, JsonV::Array(seq![JsonV::Object(seq![("content"@, JsonV::Str(prompt@)), ("role"@, JsonV::Str("user"@))])])),
            ("model"@, JsonV::Str(model@)),
            ("stream"@, JsonV::Bool(true)),
        ]);
        Json::Object(m)
    } else {
        let mut messages: Vec<Json> = Vec::new();
        item(&mut messages, role_message("system", system_prompt));
        item(&mut messages, role_message("user", prompt));
        assert(json_seq_view(messages@) =~= seq![
            JsonV::Object(seq![("content"@, JsonV::Str(system_prompt@)), ("role"@, JsonV::Str("system"@))]),
            JsonV::Object(seq![("content"@, JsonV::Str(prompt@)), ("role"@, JsonV::Str("user"@))]),
        ]);
        let mut m: Vec<(String, Json)> = Vec::new();
        member(&mut m, "messages", Json::Array(messages));
        member(&mut m, "model", text(model));
        member(&mut m, "stream", Json::Bool(true));
        member(&mut m, "tools", Json::Array(tools(enabled)));
        assert(json_members_view(m@) =~= seq![
            ("messages"@, JsonV::Array(seq![
                JsonV::Object(seq![("content"@, JsonV::Str(system_prompt@)), ("role"@, JsonV::Str("system"@))]),
                JsonV::Object(seq![("content"@, JsonV::Str(prompt@)), ("role"@, JsonV::Str("user"@))]),
            ])),
            ("model"@, JsonV::Str(model@)),
            ("stream"@, JsonV::Bool(true)),
            ("tools"@, JsonV::Array(tool_defs(enabled@.map_values(|s: String| s@)))),
        ]);
        Json::Object(m)
    }
}

/// What a model client streams back.
#[derive(Debug, PartialEq)]
pub enum ClientEvent {
    TextDelta(String),
    ReasoningDelta(String),
    ToolCall { name: String, input: Json },
    Usage(Usage),
    Done,
}

/// The provider stream event of a client event; reasoning is dropped.
pub open spec fn stream_event_of(e: ClientEvent) -> Option<StreamEventV> {
    match e {
        ClientEvent::TextDelta(t) => Some(StreamEventV::Text(t@)),
        ClientEvent::ReasoningDelta(_) => None,
        ClientEvent::ToolCall { name, input } => Some(StreamEventV::ToolCall(name@, input@)),
        ClientEvent::Usage(u) => Some(StreamEventV::Usage(u)),
        ClientEvent::Done => Some(StreamEventV::Done),
    }
}

/// The provider stream events of client events, in order.
pub open spec fn stream_events_of(events: Seq<ClientEvent>) -> Seq<StreamEventV>
    decreases events.len(),
{
    if events.len() == 0 {
        Seq::empty()
    } else {
        let rest = stream_events_of(events.drop_last());
        match stream_event_of(events.last()) {
            Some(e) => rest.push(e),
            None => rest,
        }
    }
}

/// Maps a client's events to provider stream events, dropping reasoning.
pub fn stream_events(events: Vec<ClientEvent>) -> (r: Vec<StreamEvent>)
    ensures
        events_view(r@) == stream_events_of(events@),
{
    let ghost all = events@;
    let mut events = events;
    let mut out: Vec<StreamEvent> = Vec::new();
    let mut i: usize = 0;
    let n = events.len();
    assert(all.len() == n);
    assert(all.take(0) =~= Seq::<ClientEvent>::empty());
    assert(all.skip(0) =~= all);
    assert(events_view(out@) =~= Seq::<StreamEventV>::empty());
    while events.len() > 0
        invariant
            i + events@.len() == all.len(),
            all.len() <= usize::MAX,
            events@ == all.skip(i as int),
            events_view(out@) == stream_events_of(all.take(i as int)),
        decreases events@.len(),
    {
        let e = events.remove(0);
        assert(all.skip(i as int)[0] == all[i as int]);
        assert(events@ =~= all.skip(i + 1));
        assert(all.take(i + 1).drop_last() =~= all.take(i as int));
        assert(all.take(i + 1).last() == all[i as int]);
        let ghost prev = out@;
        match e {
            ClientEvent::TextDelta(t) => out.push(StreamEvent::Text(t)),
            ClientEvent::ReasoningDelta(_) => {},
            ClientEvent::ToolCall { name, input } => out.push(StreamEvent::ToolCall { name, input }),
            ClientEvent::Usage(u) => out.push(StreamEvent::Usage(u)),
            ClientEvent::Done => out.push(StreamEvent::Done),
        }
        assert(events_view(out@) =~= stream_events_of(all.take(i + 1))) by {
            if out@.len() > prev.len() {
                assert(events_view(out@) =~= events_view(prev).push(out@.last()@));
            }
        }
        i = i + 1;
    }
    assert(all.take(i as int) =~= all);
    out
}

/// The text of a stream: its text events, joined in order.
pub open spec fn reply_of(events: Seq<StreamEventV>) -> Seq<char>
    decreases events.len(),
{
    if events.len() == 0 {
        Seq::empty()
    } else {
        reply_of(events.drop_last()) + match events.last() {
            StreamEventV::Text(t) => t,
            _ => Seq::empty(),
        }
    }
}

/// The reply a stream amounts to: its text, joined.
pub fn reply_text(events: &Vec<StreamEvent>) -> (r: String)
    ensures
        r@ == reply_of(events_view(events@)),
{
    let mut out = String::new();
    let mut i: usize = 0;
    assert(events_view(events@).take(0) =~= Seq::<StreamEventV>::empty());
    while i < events.len()
        invariant
            i <= events@.len(),
            out@ == reply_of(events_view(events@).take(i as int)),
        decreases events@.len() - i,
    {
        assert(events_view(events@).take(i + 1).drop_last() =~= events_view(events@).take(i as int));
        assert(events_view(events@).take(i + 1).last() == events@[i as int]@);
        if let StreamEvent::Text(t) = &events[i] {
            push_str(&mut out, t.as_str());
        } else {
            assert(out@ =~= out@ + Seq::<char>::empty());
        }
        i = i + 1;
    }
    assert(events_view(events@).take(i as int) =~= events_view(events@));
    out
}

/// The number of `o200k_base` tokens `tiktoken_rs` encodes `text` into
/// (`encode_ordinary`).
pub uninterp spec fn o200k_tokens(text: Seq<char>) -> nat;

/// `tiktoken_rs::CoreBPE`, a byte-pair encoding.
#[verifier::external_type_specification]
#[verifier::external_body]
pub struct ExCoreBPE(tiktoken_rs::CoreBPE);

/// `fancy_regex::Regex`, a compiled pattern.
#[verifier::external_type_specification]
#[verifier::external_body]
pub struct ExFancyRegex(fancy_regex::Regex);

/// The `o200k_base` encoding as `tiktoken_rs` loads it, with its split
/// pattern compiled on its own; only `o200k` makes one.
pub struct O200k {
    bpe: tiktoken_rs::CoreBPE,
    split: fancy_regex::Regex,
}

/// Loads the `o200k_base` encoding (`tiktoken_rs::o200k_base`) and compiles,
/// with `fancy_regex`'s default options, the split pattern that function
/// gives its encoder (the same text, as its source joins it). The crate
/// builds the encoding from a token table and that pattern, both compiled
/// into it, so the outcome depends on nothing outside the crates; it
/// reports an error only for a malformed table or pattern, and the shipped
/// ones are well formed, so the load succeeds.
#[verifier::external_body]
fn load_o200k() -> (r: Option<O200k>)
    ensures
        r is Some,
{
    let pattern = r"[^\r\n\p{L}\p{N}]?[\p{Lu}\p{Lt}\p{Lm}\p{Lo}\p{M}]*[\p{Ll}\p{Lm}\p{Lo}\p{M}]+(?i:'s|'t|'re|'ve|'m|'ll|'d)?|[^\r\n\p{L}\p{N}]?[\p{Lu}\p{Lt}\p{Lm}\p{Lo}\p{M}]+[\p{Ll}\p{Lm}\p{Lo}\p{M}]*(?i:'s|'t|'re|'ve|'m|'ll|'d)?|\p{N}{1,3}| ?[^\s\p{L}\p{N}]+[\r\n/]*|\s*[\r\n]+|\s+(?!\S)|\s+";
    match (tiktoken_rs::o200k_base(), fancy_regex::Regex::new(pattern)) {
        (Ok(bpe), Ok(split)) => Some(O200k { bpe, split }),
        _ => None,
    }
}

/// The `o200k_base` encoding, loaded once by its user and shared by every
/// count.
pub fn o200k() -> O200k {
    load_o200k().unwrap()
}

/// Whether the `o200k_base` split pattern finds every piece of `text`
/// without the pattern engine giving up (`fancy_regex`'s backtracking
/// limit); a function of the text alone.
pub uninterp spec fn o200k_splits(text: Seq<char>) -> bool;

/// Searches `text` with the split pattern (`Regex::find_iter`) and tells
/// whether no match is an error; the search stops at the first error. The
/// encoder runs this pattern, compiled by the same engine with the same
/// limit, over the same text in the same way, so it meets an error exactly
/// where this search does.
#[verifier::external_body]
fn splits_cleanly(encoding: &O200k, text: &str) -> (r: bool)
    ensures
        r == o200k_splits(text@),
{
    encoding.split.find_iter(text).all(|m| m.is_ok())
}

/// The number of tokens `CoreBPE::encode_ordinary` gives `text` under the
/// `o200k_base` encoding; the count is named, not restated. The encoder
/// unwraps each match of its split pattern, so it is called only on texts
/// the pattern splits without an error.
#[verifier::external_body]
fn token_count(encoding: &O200k, text: &str) -> (r: usize)
    requires
        o200k_splits(text@),
    ensures
        r as nat == o200k_tokens(text@),
{
    encoding.bpe.encode_ordinary(text).len()
}

/// Every text is split by the `o200k_base` pattern without an error.
pub open spec fn all_split(texts: Seq<Seq<char>>) -> bool {
    forall|i: int| 0 <= i < texts.len() ==> o200k_splits(#[trigger] texts[i])
}

/// Counts the `o200k_base` tokens of each text; nothing where the split
/// pattern cannot be run over one of them.
pub fn count_tokens(encoding: &O200k, texts: &Vec<String>) -> (r: Option<Vec<usize>>)
    ensures
        r is Some <==> all_split(string_views(texts@)),
        r matches Some(v) ==> v@.len() == texts@.len() && forall|i: int|
            0 <= i < v@.len() ==> v@[i] as nat == o200k_tokens(#[trigger] texts@[i]@),
{
    let mut counts: Vec<usize> = Vec::new();
    let mut i: usize = 0;
    while i < texts.len()
        invariant
            i <= texts@.len(),
            counts@.len() == i,
            forall|k: int| 0 <= k < i ==> o200k_splits(#[trigger] texts@[k]@),
            forall|k: int| 0 <= k < i ==> counts@[k] as nat == o200k_tokens(#[trigger] texts@[k]@),
        decreases texts@.len() - i,
    {
        if !splits_cleanly(encoding, texts[i].as_str()) {
            assert(string_views(texts@)[i as int] == texts@[i as int]@);
            return None;
        }
        counts.push(token_count(encoding, texts[i].as_str()));
        i = i + 1;
    }
    assert forall|k: int| 0 <= k < string_views(texts@).len() implies o200k_splits(#[trigger] string_views(texts@)[k]) by {
        assert(string_views(texts@)[k] == texts@[k]@);
    }
    Some(counts)
}

/// The JSON form of a chat message, as its request line is written.
pub open spec fn message_json(m: ChatMessageV) -> JsonV {
    JsonV::Object(
        seq![
            ("role"@, JsonV::Str(m.role)),
            ("content"@, JsonV::Str(m.content)),
            ("tool_calls"@, JsonV::Array(calls_json(m.tool_calls))),
            ("tool_result"@, match m.tool_result {
                Some((id, c)) => JsonV::Array(seq![JsonV::Str(id), c]),
                None => JsonV::Null,
            }),
        ],
    )
}

proof fn lemma_message_json(m: ChatMessageV)
    ensures
        message_json(m) == JsonV::Object(seq![
            ("role"@, JsonV::Str(m.role)),
            ("content"@, JsonV::Str(m.content)),
            ("tool_calls"@, JsonV::Array(calls_json(m.tool_calls))),
            ("tool_result"@, match m.tool_result {
                Some((id, c)) => JsonV::Array(seq![JsonV::Str(id), c]),
                None => JsonV::Null,
            }),
        ]),
{
}

/// The JSON forms of tool calls.
pub open spec fn calls_json(cs: Seq<CallV>) -> Seq<JsonV> {
    cs.map_values(|c: CallV| call_json(c))
}

/// The JSON form of a tool call.
pub open spec fn call_json(c: CallV) -> JsonV {
    JsonV::Object(seq![("call_id"@, JsonV::Str(c.0)), ("name"@, JsonV::Str(c.1)), ("input"@, c.2)])
}

/// The line of the system message of a request.
pub open spec fn system_line(prompt: Seq<char>) -> Seq<char> {
    serde_json_text(JsonV::Object(seq![("role"@, JsonV::Str("system"@)), ("content"@, JsonV::Str(prompt))])) + "\n"@
}

/// The lines a request is counted by: the system message where there is a
/// prompt, then each chat message of the session, each as JSON text and a
/// newline.
pub open spec fn request_lines(events: Seq<Event>, system_prompt: Seq<char>) -> Seq<Seq<char>> {
    (if system_prompt.len() > 0 {
        seq![system_line(system_prompt)]
    } else {
        Seq::empty()
    }) + session_messages(events).map_values(|m: ChatMessageV| serde_json_text(message_json(m)) + "\n"@)
}

/// The sum of some counts.
pub open spec fn sum_of(v: Seq<usize>) -> nat
    decreases v.len(),
{
    if v.len() == 0 {
        0
    } else {
        sum_of(v.drop_last()) + v.last() as nat
    }
}

/// A request's token estimate from the counts of its lines: their sum,
/// capped at `u32::MAX`; 0 where there are no counts.
pub open spec fn estimate_of(counts: Option<Seq<usize>>) -> u32 {
    match counts {
        None => 0,
        Some(v) => if sum_of(v) > u32::MAX {
            u32::MAX
        } else {
            sum_of(v) as u32
        },
    }
}

/// The estimate of a request from the token counts of its lines.
pub fn estimate_from_counts(counts: &Option<Vec<usize>>) -> (r: u32)
    ensures
        r == estimate_of(
            match counts {
                Some(v) => Some(v@),
                None => None,
            },
        ),
{
    match counts {
        None => 0,
        Some(v) => {
            let mut total: u32 = 0;
            let mut i: usize = 0;
            assert(v@.take(0) =~= Seq::<usize>::empty());
            while i < v.len()
                invariant
                    i <= v@.len(),
                    total == (if sum_of(v@.take(i as int)) > u32::MAX {
                        u32::MAX
                    } else {
                        sum_of(v@.take(i as int)) as u32
                    }),
                decreases v@.len() - i,
            {
                assert(v@.take(i + 1).drop_last() =~= v@.take(i as int));
                assert(v@.take(i + 1).last() == v@[i as int]);
                let c = v[i];
                if total == u32::MAX || c >= (u32::MAX - total) as usize {
                    total = u32::MAX;
                } else {
                    total = total + c as u32;
                }
                i = i + 1;
            }
            assert(v@.take(i as int) =~= v@);
            total
        },
    }
}

/// The JSON form of a chat message.
fn message_json_of(m: &ChatMessage) -> (r: Json)
    ensures
        r@ == message_json(m@),
{
    let mut calls: Vec<Json> = Vec::new();
    let mut i: usize = 0;
    let ghost cv = calls_view(m.tool_calls@);
    assert(json_seq_view(calls@) =~= calls_json(cv.take(0)));
    while i < m.tool_calls.len()
        invariant
            i <= m.tool_calls@.len(),
            cv == calls_view(m.tool_calls@),
            json_seq_view(calls@) == calls_json(cv.take(i as int)),
        decreases m.tool_calls@.len() - i,
    {
        let c = &m.tool_calls[i];
        let mut members: Vec<(String, Json)> = Vec::new();
        members.push(("call_id".to_owned(), Json::Str(c.call_id.clone())));
        members.push(("name".to_owned(), Json::Str(c.name.clone())));
        members.push(("input".to_owned(), c.input.copy()));
        proof {
            lemma_members_view(members@);
            assert(json_members_view(members@) =~= seq![
                ("call_id"@, JsonV::Str(c.call_id@)),
                ("name"@, JsonV::Str(c.name@)),
                ("input"@, c.input@),
            ]);
            assert(cv[i as int] == (c.call_id@, c.name@, c.input@));
        }
        let ghost prev = calls@;
        calls.push(Json::Object(members));
        proof {
            lemma_seq_view(prev);
            lemma_seq_view(calls@);
            assert(json_seq_view(calls@) =~= json_seq_view(prev).push(call_json(cv[i as int])));
            assert(calls_json(cv.take(i + 1)) =~= calls_json(cv.take(i as int)).push(call_json(cv[i as int])));
        }
        i = i + 1;
    }
    assert(cv.take(i as int) =~= cv);
    assert(json_seq_view(calls@) == calls_json(cv));
    let result = match &m.tool_result {
        Some((id, c)) => {
            let mut pair: Vec<Json> = Vec::new();
            pair.push(Json::Str(id.clone()));
            pair.push(c.copy());
            proof {
                lemma_seq_view(pair@);
                assert(json_seq_view(pair@) =~= seq![JsonV::Str(id@), c@]);
            }
            Json::Array(pair)
        },
        None => Json::Null,
    };
    assert(result@ == match m@.tool_result {
        Some((id, c)) => JsonV::Array(seq![JsonV::Str(id), c]),
        None => JsonV::Null,
    });
    let mut members: Vec<(String, Json)> = Vec::new();
    members.push(("role".to_owned(), Json::Str(m.role.clone())));
    members.push(("content".to_owned(), Json::Str(m.content.clone())));
    members.push(("tool_calls".to_owned(), Json::Array(calls)));
    members.push(("tool_result".to_owned(), result));
    proof {
        lemma_members_view(members@);
        assert(json_members_view(members@) =~= seq![
            ("role"@, JsonV::Str(m.role@)),
            ("content"@, JsonV::Str(m.content@)),
            ("tool_calls"@, JsonV::Array(calls_json(cv))),
            ("tool_result"@, match m@.tool_result {
                Some((id, c)) => JsonV::Array(seq![JsonV::Str(id), c]),
                None => JsonV::Null,
            }),
        ]);
    }
    let r = Json::Object(members);
    assert(r@ == JsonV::Object(json_members_view(members@)));
    assert(m@.tool_calls == cv);
    let ghost expected = seq![
        ("role"@, JsonV::Str(m.role@)),
        ("content"@, JsonV::Str(m.content@)),
        ("tool_calls"@, JsonV::Array(calls_json(cv))),
        ("tool_result"@, match m@.tool_result {
            Some((id, c)) => JsonV::Array(seq![JsonV::Str(id), c]),
            None => JsonV::Null,
        }),
    ];
    assert(json_members_view(members@) == expected);
    proof {
        lemma_message_json(m@);
        let mv = m@;
        assert(expected =~= seq![
            ("role"@, JsonV::Str(mv.role)),
            ("content"@, JsonV::Str(mv.content)),
            ("tool_calls"@, JsonV::Array(calls_json(mv.tool_calls))),
            ("tool_result"@, match mv.tool_result {
                Some((id, c)) => JsonV::Array(seq![JsonV::Str(id), c]),
                None => JsonV::Null,
            }),
        ]);
    }
    r
}

/// The lines a request's tokens are counted by.
pub fn request_line_texts(session: &Session, system_prompt: &str) -> (r: Vec<String>)
    ensures
        crate::text::string_views(r@) == request_lines(session.events@, system_prompt@),
{
    let mut lines: Vec<String> = Vec::new();
    if !system_prompt.is_empty() {
        let mut members: Vec<(String, Json)> = Vec::new();
        members.push(("role".to_owned(), Json::Str("system".to_owned())));
        members.push(("content".to_owned(), Json::Str(system_prompt.to_owned())));
        proof {
            lemma_members_view(members@);
            assert(json_members_view(members@) =~= seq![("role"@, JsonV::Str("system"@)), ("content"@, JsonV::Str(system_prompt@))]);
        }
        let mut line = json_text(&Json::Object(members));
        push_str(&mut line, "\n");
        lines.push(line);
    }
    let ghost head = crate::text::string_views(lines@);
    assert(head =~= (if system_prompt@.len() > 0 {
        seq![system_line(system_prompt@)]
    } else {
        Seq::<Seq<char>>::empty()
    }));
    let msgs = messages(session);
    let ghost mv = chat_view(msgs@);
    let mut i: usize = 0;
    assert(crate::text::string_views(lines@) =~= head + mv.take(0).map_values(|m: ChatMessageV| serde_json_text(message_json(m)) + "\n"@));
    while i < msgs.len()
        invariant
            i <= msgs@.len(),
            mv == chat_view(msgs@),
            mv == session_messages(session.events@),
            crate::text::string_views(lines@) == head + mv.take(i as int).map_values(
                |m: ChatMessageV| serde_json_text(message_json(m)) + "\n"@,
            ),
        decreases msgs@.len() - i,
    {
        let mut line = json_text(&message_json_of(&msgs[i]));
        push_str(&mut line, "\n");
        let ghost prev = lines@;
        lines.push(line);
        proof {
            assert(mv[i as int] == msgs@[i as int]@);
            assert(crate::text::string_views(lines@) =~= crate::text::string_views(prev).push(
                serde_json_text(message_json(mv[i as int])) + "\n"@,
            ));
            assert(mv.take(i + 1).map_values(|m: ChatMessageV| serde_json_text(message_json(m)) + "\n"@) =~= mv.take(
                i as int,
            ).map_values(|m: ChatMessageV| serde_json_text(message_json(m)) + "\n"@).push(
                serde_json_text(message_json(mv[i as int])) + "\n"@,
            ));
        }
        i = i + 1;
    }
    assert(mv.take(i as int) =~= mv);
    lines
}

/// Estimates the input tokens of a request with the `o200k_base` encoding:
/// the tokens of its lines (the system message where there is a prompt,
/// then the chat messages, each as a JSON line), summed and capped at
/// `u32::MAX`; 0 where the split pattern cannot be run over a line, as when
/// no tokenizer can be had.
pub fn estimate_request_tokens(encoding: &O200k, session: &Session, system_prompt: &str) -> (r: u32)
    ensures
        all_split(request_lines(session.events@, system_prompt@)) ==> exists|counts: Seq<usize>|
            counts.len() == request_lines(session.events@, system_prompt@).len() && (forall|i: int|
                0 <= i < counts.len() ==> counts[i] as nat == o200k_tokens(
                    #[trigger] request_lines(session.events@, system_prompt@)[i],
                )) && r == estimate_of(Some(counts)),
        !all_split(request_lines(session.events@, system_prompt@)) ==> r == 0,
{
    let lines = request_line_texts(session, system_prompt);
    let counts = count_tokens(encoding, &lines);
    proof {
        if let Some(v) = &counts {
            assert forall|i: int| 0 <= i < v@.len() implies v@[i] as nat == o200k_tokens(
                #[trigger] request_lines(session.events@, system_prompt@)[i],
            ) by {
                assert(crate::text::string_views(lines@)[i] == lines@[i]@);
            }
        }
    }
    estimate_from_counts(&counts)
}

} // verus!
