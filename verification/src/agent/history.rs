//! The message history sent to a model, rebuilt from a conversation log,
//! with file reads that a later read supersedes replaced by a stale marker.
use crate::json::{json_members_view, json_seq_view, json_text, lemma_members_view, lemma_seq_view, serde_json_text, Json, JsonV};
use crate::provider::dispatch::{string_items, string_list};
use crate::text::string_views;
use vstd::prelude::*;
use vstd::utf8::encode_utf8;

verus! {

/// A tool call as recorded in a conversation log.
#[derive(Debug, PartialEq)]
pub struct ConvoToolCall {
    pub id: String,
    pub name: String,
    pub input: Json,
}

/// A tool result as recorded in a conversation log.
#[derive(Debug, PartialEq)]
pub struct ToolResult {
    pub call_id: String,
    pub content: Json,
}

/// One entry of a conversation log.
#[derive(Debug, PartialEq)]
pub enum ConvoEvent {
    Message { role: String, content: String },
    ToolCall { calls: Vec<ConvoToolCall> },
    ToolResult { tool_result: ToolResult },
    Reasoning { content: String },
}

/// One message of the history sent to a model.
#[derive(Debug, PartialEq)]
pub struct Message {
    pub role: String,
    pub content: String,
    pub tool_calls: Option<Vec<ConvoToolCall>>,
    pub tool_result: Option<ToolResult>,
}

/// A tool call in mathematical form: id, name, input.
pub type CallV = (Seq<char>, Seq<char>, JsonV);

/// A log entry in mathematical form.
pub enum ConvoEventV {
    Message(Seq<char>, Seq<char>),
    ToolCall(Seq<CallV>),
    ToolResult(Seq<char>, JsonV),
    Reasoning(Seq<char>),
}

/// A history message in mathematical form.
pub struct MessageV {
    pub role: Seq<char>,
    pub content: Seq<char>,
    pub tool_calls: Option<Seq<CallV>>,
    pub tool_result: Option<(Seq<char>, JsonV)>,
}

/// The views of tool calls.
pub open spec fn calls_view(c: Seq<ConvoToolCall>) -> Seq<CallV> {
    c.map_values(|x: ConvoToolCall| (x.id@, x.name@, x.input@))
}

impl View for ConvoEvent {
    type V = ConvoEventV;

    open spec fn view(&self) -> ConvoEventV {
        match self {
            ConvoEvent::Message { role, content } => ConvoEventV::Message(role@, content@),
            ConvoEvent::ToolCall { calls } => ConvoEventV::ToolCall(calls_view(calls@)),
            ConvoEvent::ToolResult { tool_result } => ConvoEventV::ToolResult(
                tool_result.call_id@,
                tool_result.content@,
            ),
            ConvoEvent::Reasoning { content } => ConvoEventV::Reasoning(content@),
        }
    }
}

impl View for Message {
    type V = MessageV;

    open spec fn view(&self) -> MessageV {
        MessageV {
            role: self.role@,
            content: self.content@,
            tool_calls: match &self.tool_calls {
                Some(c) => Some(calls_view(c@)),
                None => None,
            },
            tool_result: match &self.tool_result {
                Some(t) => Some((t.call_id@, t.content@)),
                None => None,
            },
        }
    }
}

/// The views of log entries.
pub open spec fn log_view(v: Seq<ConvoEvent>) -> Seq<ConvoEventV> {
    v.map_values(|e: ConvoEvent| e@)
}

/// The views of history messages.
pub open spec fn messages_view(v: Seq<Message>) -> Seq<MessageV> {
    v.map_values(|m: Message| m@)
}

/// The call reads file `p` with `fs_read`.
pub open spec fn call_reads(c: CallV, p: Seq<char>) -> bool {
    c.1 == "fs_read"@ && string_items(c.2, "paths"@).contains(p)
}

/// The entry requests a read of `p`.
pub open spec fn event_reads(e: ConvoEventV, p: Seq<char>) -> bool {
    match e {
        ConvoEventV::ToolCall(cs) => exists|k: int| 0 <= k < cs.len() && call_reads(#[trigger] cs[k], p),
        _ => false,
    }
}

/// File `p` is read again by an entry after entry `idx`.
pub open spec fn read_later(all: Seq<ConvoEventV>, idx: int, p: Seq<char>) -> bool {
    exists|j: int| idx < j < all.len() && event_reads(#[trigger] all[j], p)
}

/// The last call of `cs` with id `id`.
pub open spec fn latest_in(cs: Seq<CallV>, id: Seq<char>) -> Option<CallV>
    decreases cs.len(),
{
    if cs.len() == 0 {
        None
    } else if cs.last().0 == id {
        Some(cs.last())
    } else {
        latest_in(cs.drop_last(), id)
    }
}

/// The last call with id `id` among the entries `events`.
pub open spec fn latest_call(events: Seq<ConvoEventV>, id: Seq<char>) -> Option<CallV>
    decreases events.len(),
{
    if events.len() == 0 {
        None
    } else {
        match events.last() {
            ConvoEventV::ToolCall(cs) => match latest_in(cs, id) {
                Some(c) => Some(c),
                None => latest_call(events.drop_last(), id),
            },
            _ => latest_call(events.drop_last(), id),
        }
    }
}

/// The paths, in order, that a later entry than `idx` reads again.
pub open spec fn stale_of(all: Seq<ConvoEventV>, idx: int, paths: Seq<Seq<char>>) -> Seq<Seq<char>>
    decreases paths.len(),
{
    if paths.len() == 0 {
        Seq::empty()
    } else {
        let rest = stale_of(all, idx, paths.drop_last());
        if read_later(all, idx, paths.last()) {
            rest.push(paths.last())
        } else {
            rest
        }
    }
}

/// The marker that replaces superseded file content: `{"stale": true}`.
pub open spec fn stale_marker() -> JsonV {
    JsonV::Object(seq![("stale"@, JsonV::Bool(true))])
}

/// A member, with its value replaced by the marker when its name is stale.
pub open spec fn mark_member(m: (Seq<char>, JsonV), stale: Seq<Seq<char>>) -> (Seq<char>, JsonV) {
    if stale.contains(m.0) {
        (m.0, stale_marker())
    } else {
        m
    }
}

/// `content` with the member of every stale path replaced by the marker; a
/// value that is not an object is kept.
pub open spec fn replace_stale(content: JsonV, stale: Seq<Seq<char>>) -> JsonV {
    match content {
        JsonV::Object(m) => JsonV::Object(m.map_values(|x: (Seq<char>, JsonV)| mark_member(x, stale))),
        _ => content,
    }
}

/// The history messages that entry `idx` of `all` contributes.
pub open spec fn entry(all: Seq<ConvoEventV>, idx: int) -> Seq<MessageV> {
    match all[idx] {
        ConvoEventV::Message(role, content) => if role == "system"@ {
            Seq::empty()
        } else {
            seq![MessageV { role, content, tool_calls: None, tool_result: None }]
        },
        ConvoEventV::ToolCall(cs) => seq![
            MessageV { role: "assistant"@, content: Seq::empty(), tool_calls: Some(cs), tool_result: None },
        ],
        ConvoEventV::ToolResult(cid, content) => {
            let raw = MessageV { role: "user"@, content: Seq::empty(), tool_calls: None, tool_result: Some((cid, content)) };
            match latest_call(all.take(idx), cid) {
                Some(c) => if c.1 == "fs_read"@ && stale_of(all, idx, string_items(c.2, "paths"@)).len() > 0 {
                    seq![MessageV {
                        tool_result: Some((cid, replace_stale(content, stale_of(all, idx, string_items(c.2, "paths"@))))),
                        ..raw
                    }]
                } else {
                    seq![raw]
                },
                None => seq![raw],
            }
        },
        ConvoEventV::Reasoning(_) => Seq::empty(),
    }
}

/// The history contributed by the first `n` entries of `all`.
pub open spec fn history_upto(all: Seq<ConvoEventV>, n: nat) -> Seq<MessageV>
    decreases n,
{
    if n == 0 {
        Seq::empty()
    } else {
        history_upto(all, (n - 1) as nat) + entry(all, n - 1)
    }
}

/// The history of a whole log.
pub open spec fn history(all: Seq<ConvoEventV>) -> Seq<MessageV> {
    history_upto(all, all.len())
}

/// Entry `j` of the log, a tool-call entry, has an `fs_read` call that names
/// path `p`.
pub open spec fn names_in_read(e: ConvoEventV, p: Seq<char>) -> bool {
    match e {
        ConvoEventV::ToolCall(cs) => exists|q: int|
            0 <= q < cs.len() && (#[trigger] cs[q]).1 == "fs_read"@ && string_items(cs[q].2, "paths"@).contains(p),
        _ => false,
    }
}

/// Some entry after entry `idx` has an `fs_read` call naming path `p`.
pub open spec fn named_by_later_read(all: Seq<ConvoEventV>, idx: int, p: Seq<char>) -> bool {
    exists|j: int| idx < j < all.len() && names_in_read(#[trigger] all[j], p)
}

/// A path is stale for the result at `idx` exactly when the read names it
/// and a later entry reads it again.
proof fn lemma_stale_of_contains(all: Seq<ConvoEventV>, idx: int, paths: Seq<Seq<char>>, k: Seq<char>)
    ensures
        stale_of(all, idx, paths).contains(k) <==> (paths.contains(k) && named_by_later_read(all, idx, k)),
    decreases paths.len(),
{
    assert(read_later(all, idx, k) <==> named_by_later_read(all, idx, k)) by {
        if read_later(all, idx, k) {
            let j = choose|j: int| idx < j < all.len() && event_reads(#[trigger] all[j], k);
            assert(names_in_read(all[j], k));
        }
        if named_by_later_read(all, idx, k) {
            let j = choose|j: int| idx < j < all.len() && names_in_read(#[trigger] all[j], k);
            if let ConvoEventV::ToolCall(cs) = all[j] {
                let q = choose|q: int|
                    0 <= q < cs.len() && (#[trigger] cs[q]).1 == "fs_read"@ && string_items(cs[q].2, "paths"@).contains(k);
                assert(call_reads(cs[q], k));
            }
            assert(event_reads(all[j], k));
        }
    }
    if paths.len() > 0 {
        let init = paths.drop_last();
        lemma_stale_of_contains(all, idx, init, k);
        let rest = stale_of(all, idx, init);
        assert(paths =~= init.push(paths.last()));
        if paths.contains(k) && !init.contains(k) {
            let i = choose|i: int| 0 <= i < paths.len() && paths[i] == k;
            if i < init.len() {
                assert(init[i] == k);
            }
            assert(paths.last() == k);
        }
        if init.contains(k) {
            let i = choose|i: int| 0 <= i < init.len() && init[i] == k;
            assert(paths[i] == k);
        }
        if read_later(all, idx, paths.last()) {
            let out = rest.push(paths.last());
            if out.contains(k) && !rest.contains(k) {
                let i = choose|i: int| 0 <= i < out.len() && out[i] == k;
                if i < rest.len() {
                    assert(rest[i] == k);
                }
            }
            if rest.contains(k) {
                let i = choose|i: int| 0 <= i < rest.len() && rest[i] == k;
                assert(out[i] == k);
            }
            if paths.last() == k {
                assert(out[rest.len() as int] == k);
            }
        }
    }
}

/// The history of a prefix of the log begins the history of a longer one.
proof fn lemma_history_prefix(all: Seq<ConvoEventV>, n: nat, m: nat)
    requires
        n <= m <= all.len(),
    ensures
        history_upto(all, n).len() <= history_upto(all, m).len(),
        history_upto(all, m).take(history_upto(all, n).len() as int) == history_upto(all, n),
    decreases m,
{
    if m > n {
        lemma_history_prefix(all, n, (m - 1) as nat);
        let a = history_upto(all, (m - 1) as nat);
        assert(history_upto(all, m) == a + entry(all, m - 1));
        assert((a + entry(all, m - 1)).take(history_upto(all, n).len() as int) =~= a.take(
            history_upto(all, n).len() as int,
        ));
    } else {
        assert(history_upto(all, m).take(history_upto(all, n).len() as int) =~= history_upto(all, n));
    }
}

/// Only re-read paths are tombstoned: in the history, the message of a tool
/// result carries its call id and its content with, where the call it
/// answers (the latest with that id before it) is an `fs_read` and the
/// content an object, the member of each path that read names and a later
/// entry reads again replaced by `{"stale": true}`, and every other member
/// kept, unchanged and in place; the result of any other call, or a content
/// that is not an object, is carried unchanged.
pub proof fn law_only_reread_paths_are_tombstoned(all: Seq<ConvoEventV>, idx: int)
    requires
        0 <= idx < all.len(),
        all[idx] is ToolResult,
    ensures
        match all[idx] {
            ConvoEventV::ToolResult(cid, content) => {
                let pos = history_upto(all, idx as nat).len() as int;
                &&& 0 <= pos < history(all).len()
                &&& history(all)[pos].tool_result matches Some((id, v)) && id == cid && match (
                    latest_call(all.take(idx), cid),
                    content,
                ) {
                    (Some(c), JsonV::Object(m)) => if c.1 == "fs_read"@ {
                        v matches JsonV::Object(m2) && m2.len() == m.len() && forall|i: int|
                            0 <= i < m.len() ==> (#[trigger] m2[i]).0 == m[i].0 && if string_items(
                                c.2,
                                "paths"@,
                            ).contains(m[i].0) && named_by_later_read(all, idx, m[i].0) {
                                m2[i].1 == JsonV::Object(seq![("stale"@, JsonV::Bool(true))])
                            } else {
                                m2[i].1 == m[i].1
                            }
                    } else {
                        v == content
                    },
                    _ => v == content,
                }
            },
            _ => false,
        },
{
    let n = idx as nat;
    lemma_history_prefix(all, n + 1, all.len());
    let h = history_upto(all, n + 1);
    assert(h == history_upto(all, n) + entry(all, idx));
    let e = entry(all, idx);
    assert(e.len() == 1);
    let pos = history_upto(all, n).len() as int;
    assert(h[pos] == e[0]);
    assert(history(all).take(h.len() as int)[pos] == h[pos]);
    assert(history(all)[pos] == e[0]);
    if let ConvoEventV::ToolResult(cid, content) = all[idx] {
        if let Some(c) = latest_call(all.take(idx), cid) {
            if let JsonV::Object(m) = content {
                if c.1 == "fs_read"@ {
                    let paths = string_items(c.2, "paths"@);
                    let stale = stale_of(all, idx, paths);
                    assert forall|i: int| 0 <= i < m.len() implies (stale.contains(m[i].0) <==> (paths.contains(m[i].0)
                        && named_by_later_read(all, idx, m[i].0))) by {
                        lemma_stale_of_contains(all, idx, paths, m[i].0);
                    }
                    if stale.len() == 0 {
                        assert forall|i: int| 0 <= i < m.len() implies !stale.contains(m[i].0) by {}
                    }
                }
            }
        }
    }
}

/// The roles of a rebuilt history: no message is a system message; a
/// message carrying a tool result is a user message with no text and no
/// calls; a message carrying calls is an assistant message with no text and
/// no result.
pub open spec fn shaped(m: MessageV) -> bool {
    &&& m.role != "system"@
    &&& m.tool_result is Some ==> m.role == "user"@ && m.content.len() == 0 && m.tool_calls is None
    &&& m.tool_calls is Some ==> m.role == "assistant"@ && m.content.len() == 0 && m.tool_result is None
}

/// Every message of a rebuilt history has its role's shape: system messages
/// are left out, tool results come back as user messages and tool calls as
/// assistant messages, each without text.
pub proof fn law_history_roles(all: Seq<ConvoEventV>, n: nat)
    requires
        n <= all.len(),
    ensures
        forall|k: int| 0 <= k < history_upto(all, n).len() ==> shaped(#[trigger] history_upto(all, n)[k]),
    decreases n,
{
    reveal_strlit("system");
    reveal_strlit("user");
    reveal_strlit("assistant");
    assert("user"@.len() == 4 && "assistant"@.len() == 9 && "system"@.len() == 6);
    if n > 0 {
        law_history_roles(all, (n - 1) as nat);
        let a = history_upto(all, (n - 1) as nat);
        let e = entry(all, n - 1);
        assert(history_upto(all, n) == a + e);
        assert forall|k: int| 0 <= k < e.len() implies shaped(#[trigger] e[k]) by {
            assert(e.len() == 1);
        }
        assert forall|k: int| 0 <= k < (a + e).len() implies shaped(#[trigger] (a + e)[k]) by {
            if k < a.len() {
                assert((a + e)[k] == a[k]);
            } else {
                assert((a + e)[k] == e[k - a.len()]);
            }
        }
    }
}

/// A copy of a tool call.
fn copy_call(c: &ConvoToolCall) -> (r: ConvoToolCall)
    ensures
        (r.id@, r.name@, r.input@) == (c.id@, c.name@, c.input@),
{
    ConvoToolCall { id: c.id.clone(), name: c.name.clone(), input: c.input.copy() }
}

/// A copy of a list of tool calls.
pub fn copy_calls(cs: &Vec<ConvoToolCall>) -> (r: Vec<ConvoToolCall>)
    ensures
        calls_view(r@) == calls_view(cs@),
{
    let mut out: Vec<ConvoToolCall> = Vec::new();
    let mut i: usize = 0;
    while i < cs.len()
        invariant
            i <= cs@.len(),
            calls_view(out@) == calls_view(cs@).take(i as int),
        decreases cs@.len() - i,
    {
        let ghost prev = out@;
        let c = copy_call(&cs[i]);
        out.push(c);
        assert(calls_view(out@) =~= calls_view(prev).push((cs@[i as int].id@, cs@[i as int].name@, cs@[i as int].input@)));
        i = i + 1;
        assert(calls_view(out@) =~= calls_view(cs@).take(i as int));
    }
    assert(calls_view(cs@).take(i as int) =~= calls_view(cs@));
    out
}

/// `v` holds a string with view `s`.
fn has_string(v: &Vec<String>, s: &String) -> (r: bool)
    ensures
        r == string_views(v@).contains(s@),
{
    let mut k: usize = 0;
    while k < v.len()
        invariant
            k <= v@.len(),
            forall|j: int| 0 <= j < k ==> v@[j]@ != s@,
        decreases v@.len() - k,
    {
        if v[k] == *s {
            assert(string_views(v@)[k as int] == s@);
            return true;
        }
        k = k + 1;
    }
    proof {
        if string_views(v@).contains(s@) {
            let j = choose|j: int| 0 <= j < string_views(v@).len() && string_views(v@)[j] == s@;
            assert(v@[j]@ == s@);
        }
    }
    false
}

/// The call reads file `p` with `fs_read`.
fn call_reads_exec(c: &ConvoToolCall, p: &String) -> (r: bool)
    ensures
        r == call_reads((c.id@, c.name@, c.input@), p@),
{
    if !crate::text::str_eq(c.name.as_str(), "fs_read") {
        return false;
    }
    let paths = string_list(&c.input, "paths");
    has_string(&paths, p)
}

/// File `p` is read again by an entry after entry `idx`.
#[verifier::loop_isolation(false)]
fn read_later_exec(all: &Vec<ConvoEvent>, idx: usize, p: &String) -> (r: bool)
    requires
        idx < all@.len(),
    ensures
        r == read_later(log_view(all@), idx as int, p@),
{
    let ghost lv = log_view(all@);
    let n = all.len();
    let mut j: usize = idx + 1;
    while j < n
        invariant
            idx < j <= all@.len(),
            n == all@.len(),
            lv == log_view(all@),
            forall|k: int| idx < k < j ==> !event_reads(#[trigger] lv[k], p@),
        decreases all@.len() - j,
    {
        assert(lv[j as int] == all@[j as int]@);
        if let ConvoEvent::ToolCall { calls } = &all[j] {
            let mut k: usize = 0;
            while k < calls.len()
                invariant
                    k <= calls@.len(),
                    forall|q: int| 0 <= q < k ==> !call_reads(#[trigger] calls_view(calls@)[q], p@),
                decreases calls@.len() - k,
            {
                if call_reads_exec(&calls[k], p) {
                    assert(call_reads(calls_view(calls@)[k as int], p@));
                    assert(event_reads(lv[j as int], p@));
                    return true;
                }
                k = k + 1;
            }
            assert(!event_reads(lv[j as int], p@));
        }
        j = j + 1;
    }
    false
}

/// The stale paths of `paths` for the result at entry `idx`.
fn stale_paths(all: &Vec<ConvoEvent>, idx: usize, paths: &Vec<String>) -> (r: Vec<String>)
    requires
        idx < all@.len(),
    ensures
        string_views(r@) == stale_of(log_view(all@), idx as int, string_views(paths@)),
{
    let ghost pv = string_views(paths@);
    let mut out: Vec<String> = Vec::new();
    let mut i: usize = 0;
    assert(pv.take(0) =~= Seq::<Seq<char>>::empty());
    while i < paths.len()
        invariant
            i <= paths@.len(),
            idx < all@.len(),
            pv == string_views(paths@),
            string_views(out@) == stale_of(log_view(all@), idx as int, pv.take(i as int)),
        decreases paths@.len() - i,
    {
        proof {
            assert(pv.take(i + 1).drop_last() =~= pv.take(i as int));
        }
        let ghost prev = out@;
        if read_later_exec(all, idx, &paths[i]) {
            out.push(paths[i].clone());
            assert(string_views(out@) =~= string_views(prev).push(paths@[i as int]@));
        }
        i = i + 1;
    }
    assert(pv.take(i as int) =~= pv);
    out
}

/// The last call with id `id` in the first `n` entries of `all`.
#[verifier::loop_isolation(false)]
fn latest_call_exec<'a>(all: &'a Vec<ConvoEvent>, n: usize, id: &String) -> (r: Option<&'a ConvoToolCall>)
    requires
        n <= all@.len(),
    ensures
        match r {
            Some(c) => latest_call(log_view(all@).take(n as int), id@) == Some((c.id@, c.name@, c.input@)),
            None => latest_call(log_view(all@).take(n as int), id@) is None,
        },
{
    let ghost lv = log_view(all@);
    let mut j: usize = n;
    while j > 0
        invariant
            j <= n <= all@.len(),
            lv == log_view(all@),
            latest_call(lv.take(n as int), id@) == latest_call(lv.take(j as int), id@),
        decreases j,
    {
        proof {
            assert(lv.take(j as int).drop_last() =~= lv.take(j - 1));
            assert(lv.take(j as int).last() == lv[j - 1]);
        }
        assert(lv[j - 1] == all@[j - 1]@);
        if let ConvoEvent::ToolCall { calls } = &all[j - 1] {
            let ghost cv = calls_view(calls@);
            let mut k: usize = calls.len();
            assert(cv.take(k as int) =~= cv);
            while k > 0
                invariant
                    k <= calls@.len(),
                    cv == calls_view(calls@),
                    latest_in(cv, id@) == latest_in(cv.take(k as int), id@),
                decreases k,
            {
                proof {
                    assert(cv.take(k as int).drop_last() =~= cv.take(k - 1));
                }
                if calls[k - 1].id == *id {
                    proof {
                        assert(cv.take(k as int).last() == cv[k - 1]);
                        assert(lv[j - 1] == all@[j - 1]@);
                    }
                    return Some(&calls[k - 1]);
                }
                k = k - 1;
            }
        }
        j = j - 1;
    }
    None
}

/// `content` with the member of every stale path replaced by
/// `{"stale": true}`; a value that is not an object is kept.
pub fn replace_stale_in_value(content: &Json, stale_paths: &Vec<String>) -> (r: Json)
    ensures
        r@ == replace_stale(content@, string_views(stale_paths@)),
{
    match content {
        Json::Object(members) => {
            let ghost mv = json_members_view(members@);
            proof {
                lemma_members_view(members@);
            }
            let ghost sv = string_views(stale_paths@);
            let mut out: Vec<(String, Json)> = Vec::new();
            let mut i: usize = 0;
            assert(json_members_view(out@) =~= mv.take(0).map_values(|x: (Seq<char>, JsonV)| mark_member(x, sv)));
            while i < members.len()
                invariant
                    i <= members@.len(),
                    sv == string_views(stale_paths@),
                    mv == json_members_view(members@),
                    mv.len() == members@.len(),
                    forall|k: int| 0 <= k < members@.len() ==> #[trigger] mv[k] == (members@[k].0@, members@[k].1@),
                    json_members_view(out@) == mv.take(i as int).map_values(|x: (Seq<char>, JsonV)| mark_member(x, sv)),
                decreases members@.len() - i,
            {
                let key = members[i].0.clone();
                let is_stale = has_string(stale_paths, &members[i].0);
                let value = if is_stale {
                    let mut inner: Vec<(String, Json)> = Vec::new();
                    inner.push(("stale".to_owned(), Json::Bool(true)));
                    proof {
                        lemma_members_view(inner@);
                        assert(json_members_view(inner@) =~= seq![("stale"@, JsonV::Bool(true))]);
                    }
                    Json::Object(inner)
                } else {
                    members[i].1.copy()
                };
                assert((key@, value@) == mark_member(mv[i as int], sv));
                let ghost prev = out@;
                out.push((key, value));
                proof {
                    assert(out@.drop_last() =~= prev);
                    assert(json_members_view(out@) == json_members_view(prev).push((key@, value@)));
                    assert(mv.take(i + 1).map_values(|x: (Seq<char>, JsonV)| mark_member(x, sv)) =~= mv.take(
                        i as int,
                    ).map_values(|x: (Seq<char>, JsonV)| mark_member(x, sv)).push(mark_member(mv[i as int], sv)));
                }
                i = i + 1;
            }
            assert(mv.take(i as int) =~= mv);
            Json::Object(out)
        },
        _ => content.copy(),
    }
}

/// Rebuilds the history sent to a model from a conversation log: messages
/// other than system messages, tool calls as assistant messages, results as
/// user messages, reasoning left out; the content of a file read is replaced
/// by a stale marker where a later read of the same file supersedes it.
/// Returns the history and how many results were so marked.
pub fn build_message_history(events: &Vec<ConvoEvent>) -> (r: (Vec<Message>, usize))
    ensures
        messages_view(r.0@) == history(log_view(events@)),
        r.1 <= events@.len(),
{
    let ghost lv = log_view(events@);
    let mut messages: Vec<Message> = Vec::new();
    let mut tombstones: usize = 0;
    let mut idx: usize = 0;
    assert(messages_view(messages@) =~= Seq::<MessageV>::empty());
    while idx < events.len()
        invariant
            idx <= events@.len(),
            lv == log_view(events@),
            tombstones <= idx,
            messages_view(messages@) == history_upto(lv, idx as nat),
        decreases events@.len() - idx,
    {
        let ghost prev = messages@;
        match &events[idx] {
            ConvoEvent::Message { role, content } => {
                if !crate::text::str_eq(role.as_str(), "system") {
                    let m = Message { role: role.clone(), content: content.clone(), tool_calls: None, tool_result: None };
                    messages.push(m);
                    assert(messages_view(messages@) =~= messages_view(prev).push(m@));
                } else {
                    assert(messages_view(messages@) =~= messages_view(prev));
                }
            },
            ConvoEvent::ToolCall { calls } => {
                let m = Message {
                    role: "assistant".to_owned(),
                    content: String::new(),
                    tool_calls: Some(copy_calls(calls)),
                    tool_result: None,
                };
                messages.push(m);
                assert(messages_view(messages@) =~= messages_view(prev).push(m@));
            },
            ConvoEvent::ToolResult { tool_result } => {
                let mut content = tool_result.content.copy();
                match latest_call_exec(events, idx, &tool_result.call_id) {
                    Some(call) => {
                        if crate::text::str_eq(call.name.as_str(), "fs_read") {
                            let paths = string_list(&call.input, "paths");
                            let stale = stale_paths(events, idx, &paths);
                            if stale.len() > 0 {
                                tombstones = tombstones + 1;
                                content = replace_stale_in_value(&tool_result.content, &stale);
                            }
                        }
                    },
                    None => {},
                }
                let m = Message {
                    role: "user".to_owned(),
                    content: String::new(),
                    tool_calls: None,
                    tool_result: Some(ToolResult { call_id: tool_result.call_id.clone(), content }),
                };
                messages.push(m);
                assert(messages_view(messages@) =~= messages_view(prev).push(m@));
            },
            ConvoEvent::Reasoning { .. } => {
                assert(messages_view(messages@) =~= messages_view(prev));
            },
        }
        proof {
            assert(lv[idx as int] == events@[idx as int]@);
        }
        idx = idx + 1;
    }
    (messages, tombstones)
}


/// The JSON form of a tool call of the history: its id, name and input.
pub open spec fn history_call_json(c: CallV) -> JsonV {
    JsonV::Object(seq![("id"@, JsonV::Str(c.0)), ("name"@, JsonV::Str(c.1)), ("input"@, c.2)])
}

/// The JSON form of a history message: its role, content, tool calls and
/// tool result, an absent one written as null.
pub open spec fn history_message_json(m: MessageV) -> JsonV {
    JsonV::Object(
        seq![
            ("role"@, JsonV::Str(m.role)),
            ("content"@, JsonV::Str(m.content)),
            ("tool_calls"@, match m.tool_calls {
                Some(cs) => JsonV::Array(cs.map_values(|c: CallV| history_call_json(c))),
                None => JsonV::Null,
            }),
            ("tool_result"@, match m.tool_result {
                Some((id, c)) => JsonV::Object(seq![("call_id"@, JsonV::Str(id)), ("content"@, c)]),
                None => JsonV::Null,
            }),
        ],
    )
}

/// The JSON text of a history: the array of its messages.
pub open spec fn history_text(ms: Seq<MessageV>) -> Seq<char> {
    serde_json_text(JsonV::Array(ms.map_values(|m: MessageV| history_message_json(m))))
}

/// The JSON form of one tool call of the history.
fn history_call_json_of(c: &ConvoToolCall) -> (r: Json)
    ensures
        r@ == history_call_json((c.id@, c.name@, c.input@)),
{
    let mut members: Vec<(String, Json)> = Vec::new();
    members.push(("id".to_owned(), Json::Str(c.id.clone())));
    members.push(("name".to_owned(), Json::Str(c.name.clone())));
    members.push(("input".to_owned(), c.input.copy()));
    proof {
        lemma_members_view(members@);
        assert(json_members_view(members@) =~= seq![("id"@, JsonV::Str(c.id@)), ("name"@, JsonV::Str(c.name@)), ("input"@, c.input@)]);
    }
    Json::Object(members)
}

/// The JSON form of one history message.
fn history_message_json_of(m: &Message) -> (r: Json)
    ensures
        r@ == history_message_json(m@),
{
    let calls = match &m.tool_calls {
        Some(cs) => {
            let mut items: Vec<Json> = Vec::new();
            let mut i: usize = 0;
            while i < cs.len()
                invariant
                    i <= cs@.len(),
                    json_seq_view(items@) == calls_view(cs@).take(i as int).map_values(|c: CallV| history_call_json(c)),
                decreases cs@.len() - i,
            {
                let ghost before = items@;
                items.push(history_call_json_of(&cs[i]));
                proof {
                    assert(calls_view(cs@)[i as int] == (cs@[i as int].id@, cs@[i as int].name@, cs@[i as int].input@));
                    assert(calls_view(cs@).take(i + 1).map_values(|c: CallV| history_call_json(c)) =~= calls_view(cs@).take(
                        i as int,
                    ).map_values(|c: CallV| history_call_json(c)).push(history_call_json(calls_view(cs@)[i as int])));
                    assert(items@.drop_last() =~= before);
                }
                i = i + 1;
            }
            assert(calls_view(cs@).take(i as int) =~= calls_view(cs@));
            let a = Json::Array(items);
            assert(a@ == JsonV::Array(calls_view(cs@).map_values(|c: CallV| history_call_json(c))));
            a
        },
        None => Json::Null,
    };
    let result = match &m.tool_result {
        Some(t) => {
            let mut inner: Vec<(String, Json)> = Vec::new();
            inner.push(("call_id".to_owned(), Json::Str(t.call_id.clone())));
            inner.push(("content".to_owned(), t.content.copy()));
            proof {
                lemma_members_view(inner@);
                assert(json_members_view(inner@) =~= seq![("call_id"@, JsonV::Str(t.call_id@)), ("content"@, t.content@)]);
            }
            Json::Object(inner)
        },
        None => Json::Null,
    };
    assert(calls@ == match m@.tool_calls {
        Some(cs) => JsonV::Array(cs.map_values(|c: CallV| history_call_json(c))),
        None => JsonV::Null,
    });
    assert(result@ == match m@.tool_result {
        Some((id, c)) => JsonV::Object(seq![("call_id"@, JsonV::Str(id)), ("content"@, c)]),
        None => JsonV::Null,
    });
    let ghost cv = calls@;
    let ghost rv = result@;
    let mut members: Vec<(String, Json)> = Vec::new();
    members.push(("role".to_owned(), Json::Str(m.role.clone())));
    members.push(("content".to_owned(), Json::Str(m.content.clone())));
    members.push(("tool_calls".to_owned(), calls));
    members.push(("tool_result".to_owned(), result));
    proof {
        lemma_members_view(members@);
        assert(json_members_view(members@) =~= seq![
            ("role"@, JsonV::Str(m.role@)),
            ("content"@, JsonV::Str(m.content@)),
            ("tool_calls"@, cv),
            ("tool_result"@, rv),
        ]);
        if let JsonV::Object(expected) = history_message_json(m@) {
            assert(json_members_view(members@) =~= expected);
        }
    }
    Json::Object(members)
}

/// A rough token count of a history: a third of the bytes of its JSON text
/// (UTF-8), cut to 32 bits.
pub fn estimate_tokens_from_messages(messages: &Vec<Message>) -> (r: u32)
    ensures
        r == ((encode_utf8(history_text(messages_view(messages@))).len() as usize) / 3) as u32,
{
    let mut items: Vec<Json> = Vec::new();
    let mut i: usize = 0;
    while i < messages.len()
        invariant
            i <= messages@.len(),
            json_seq_view(items@) == messages_view(messages@).take(i as int).map_values(
                |m: MessageV| history_message_json(m),
            ),
        decreases messages@.len() - i,
    {
        let ghost before = items@;
        items.push(history_message_json_of(&messages[i]));
        proof {
            assert(messages_view(messages@).take(i + 1).map_values(|m: MessageV| history_message_json(m))
                =~= messages_view(messages@).take(i as int).map_values(|m: MessageV| history_message_json(m)).push(
                history_message_json(messages@[i as int]@),
            ));
            assert(items@.drop_last() =~= before);
        }
        i = i + 1;
    }
    assert(messages_view(messages@).take(i as int) =~= messages_view(messages@));
    let all = Json::Array(items);
    assert(all@ == JsonV::Array(messages_view(messages@).map_values(|m: MessageV| history_message_json(m))));
    let text = json_text(&all);
    let bytes = text.as_str().len();
    (bytes / 3) as u32
}

} // verus!
