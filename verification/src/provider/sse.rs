//! Decoding of server-sent-event replies into stream events.
use crate::json::{
    json_as_str, json_as_u64, json_field, json_get, json_pointer, json_seq_view, lemma_seq_view, opt_view,
    parse_outcome, serde_json_parse, split_chars, split_on, Json, JsonV,
};
use crate::model::Usage;
use crate::provider::{events_view, StreamEvent, StreamEventV};
use crate::text::{chars_of, concat, ends_with, has_prefix, has_suffix, starts_with, string_of, views_of};
use vstd::prelude::*;

verus! {

/// `l` without one trailing carriage return.
pub open spec fn strip_cr(l: Seq<char>) -> Seq<char> {
    if l.len() > 0 && l.last() == '\r' {
        l.drop_last()
    } else {
        l
    }
}

/// The lines of `s` as `str::lines` yields them: split at `\n`, a `\r`
/// before a `\n` dropped, and no empty line after a final `\n`.
pub open spec fn text_lines(s: Seq<char>) -> Seq<Seq<char>> {
    let pieces = split_on(s, '\n');
    let ended = pieces.drop_last().map_values(|l: Seq<char>| strip_cr(l));
    if pieces.last().len() == 0 {
        ended
    } else {
        ended.push(pieces.last())
    }
}

/// Decoder state: the events so far and the tool calls being assembled,
/// each a name and argument text.
pub struct SseState {
    pub events: Seq<StreamEventV>,
    pub calls: Seq<(Seq<char>, Seq<char>)>,
}

/// The first of two pointers that designates something.
pub open spec fn either_pointer(v: JsonV, a: Seq<char>, b: Seq<char>) -> Option<JsonV> {
    match json_pointer(v, a) {
        Some(x) => Some(x),
        None => json_pointer(v, b),
    }
}

/// A count read from `v` at the first of two pointers, truncated to 32 bits.
pub open spec fn count_at(v: JsonV, a: Seq<char>, b: Seq<char>) -> Option<u32> {
    match either_pointer(v, a, b) {
        Some(x) => match json_as_u64(x) {
            Some(n) => Some(n as u32),
            None => None,
        },
        None => None,
    }
}

/// Token usage reported in a stream payload, chat or responses style.
pub open spec fn usage_of(v: JsonV) -> Option<Usage> {
    match (
        count_at(v, "/usage/prompt_tokens"@, "/usage/input_tokens"@),
        count_at(v, "/usage/completion_tokens"@, "/usage/output_tokens"@),
    ) {
        (Some(input), Some(output)) => Some(Usage { input, output, cached_input: 0 }),
        _ => None,
    }
}

/// The string at `p` in `v`, or nothing.
pub open spec fn str_at(v: JsonV, p: Seq<char>) -> Seq<char> {
    match json_pointer(v, p) {
        Some(x) => match json_as_str(x) {
            Some(s) => s,
            None => Seq::empty(),
        },
        None => Seq::empty(),
    }
}

/// The slot a chat tool-call fragment belongs to.
pub open spec fn fragment_index(item: JsonV) -> int {
    match json_as_u64(json_field(item, "index"@)) {
        Some(n) => (n as usize) as int,
        None => 0,
    }
}

/// `calls` grown with empty slots until it has slot `i`.
pub open spec fn padded(calls: Seq<(Seq<char>, Seq<char>)>, i: int) -> Seq<(Seq<char>, Seq<char>)> {
    if i < calls.len() {
        calls
    } else {
        calls + Seq::new((i + 1 - calls.len()) as nat, |k: int| (Seq::<char>::empty(), Seq::<char>::empty()))
    }
}

/// One chat tool-call fragment added to the calls being assembled.
pub open spec fn add_fragment(calls: Seq<(Seq<char>, Seq<char>)>, item: JsonV) -> Seq<(Seq<char>, Seq<char>)> {
    let i = fragment_index(item);
    let p = padded(calls, i);
    p.update(i, (p[i].0 + str_at(item, "/function/name"@), p[i].1 + str_at(item, "/function/arguments"@)))
}

/// All fragments of `items`, in order.
pub open spec fn add_fragments(calls: Seq<(Seq<char>, Seq<char>)>, items: Seq<JsonV>) -> Seq<(Seq<char>, Seq<char>)>
    decreases items.len(),
{
    if items.len() == 0 {
        calls
    } else {
        add_fragment(add_fragments(calls, items.drop_last()), items.last())
    }
}

/// A finished tool call in the responses style, if `v` is one.
pub open spec fn finished_call(v: JsonV) -> Option<StreamEventV> {
    if json_field(v, "type"@) != JsonV::Str("response.output_item.done"@) {
        None
    } else if json_pointer(v, "/item/type"@) != Some(JsonV::Str("function_call"@)) {
        None
    } else {
        let item = json_field(v, "item"@);
        match (json_as_str(json_field(item, "name"@)), json_as_str(json_field(item, "arguments"@))) {
            (Some(name), Some(args)) => match serde_json_parse(args) {
                Ok(input) => Some(StreamEventV::ToolCall(name, input)),
                Err(_) => None,
            },
            _ => None,
        }
    }
}

/// A text fragment, in the responses, chat or messages style.
pub open spec fn text_of(v: JsonV) -> Option<Seq<char>> {
    let kind_ok = match json_as_str(json_field(v, "type"@)) {
        Some(k) => has_suffix(k, "output_text.delta"@),
        None => false,
    };
    match json_as_str(json_field(v, "delta"@)) {
        Some(d) if kind_ok => Some(d),
        _ => match json_pointer(v, "/choices/0/delta/content"@) {
            Some(x) if json_as_str(x) is Some => json_as_str(x),
            _ => match json_pointer(v, "/content_block_delta/delta/text"@) {
                Some(x) => json_as_str(x),
                None => None,
            },
        },
    }
}

/// How one JSON payload changes the decoder state.
pub open spec fn handle_payload(st: SseState, v: JsonV) -> SseState {
    let events = match usage_of(v) {
        Some(u) => st.events.push(StreamEventV::Usage(u)),
        None => st.events,
    };
    match json_pointer(v, "/choices/0/delta/tool_calls"@) {
        Some(JsonV::Array(items)) => SseState { events, calls: add_fragments(st.calls, items) },
        _ => match finished_call(v) {
            Some(call) => SseState { events: events.push(call), calls: st.calls },
            None => match text_of(v) {
                Some(t) => SseState { events: events.push(StreamEventV::Text(t)), calls: st.calls },
                None => SseState { events, calls: st.calls },
            },
        },
    }
}

/// A finished responses-style call is named by its item: a payload of type
/// `response.output_item.done` whose item is a `function_call` with a string
/// `name` and string `arguments` that parse, and that holds no chat
/// tool-call fragments, adds as its last event a tool call with the item's
/// name and the parsed arguments, and leaves the calls being assembled
/// alone.
pub proof fn law_finished_call_named_by_item(st: SseState, v: JsonV, name: Seq<char>, args: Seq<char>, input: JsonV)
    requires
        json_field(v, "type"@) == JsonV::Str("response.output_item.done"@),
        json_pointer(v, "/item/type"@) == Some(JsonV::Str("function_call"@)),
        json_field(json_field(v, "item"@), "name"@) == JsonV::Str(name),
        json_field(json_field(v, "item"@), "arguments"@) == JsonV::Str(args),
        serde_json_parse(args) == Ok::<JsonV, Seq<char>>(input),
        !(json_pointer(v, "/choices/0/delta/tool_calls"@) matches Some(JsonV::Array(_))),
    ensures
        handle_payload(st, v).events.len() > 0,
        handle_payload(st, v).events.last() == StreamEventV::ToolCall(name, input),
        handle_payload(st, v).calls == st.calls,
{
}

/// The assembled calls whose arguments parse, as tool-call events, in order.
pub open spec fn flushed(calls: Seq<(Seq<char>, Seq<char>)>) -> Seq<StreamEventV>
    decreases calls.len(),
{
    if calls.len() == 0 {
        Seq::empty()
    } else {
        let rest = flushed(calls.drop_last());
        match serde_json_parse(calls.last().1) {
            Ok(input) => rest.push(StreamEventV::ToolCall(calls.last().0, input)),
            Err(_) => rest,
        }
    }
}

/// How one `data: ` payload changes the decoder state.
pub open spec fn data_step(st: SseState, data: Seq<char>) -> SseState {
    if data == "[DONE]"@ {
        SseState { events: st.events + flushed(st.calls) + seq![StreamEventV::Done], calls: Seq::empty() }
    } else {
        match serde_json_parse(data) {
            Ok(v) => handle_payload(st, v),
            Err(e) => SseState {
                events: st.events.push(StreamEventV::Malformed("malformed provider content: "@ + e)),
                calls: st.calls,
            },
        }
    }
}

/// How one line changes the decoder state: only `data: ` lines count.
pub open spec fn line_step(st: SseState, line: Seq<char>) -> SseState {
    if has_prefix(line, "data: "@) {
        data_step(st, line.skip(6))
    } else {
        st
    }
}

/// The decoder state after `lines`.
pub open spec fn decode_lines(lines: Seq<Seq<char>>) -> SseState
    decreases lines.len(),
{
    if lines.len() == 0 {
        SseState { events: Seq::empty(), calls: Seq::empty() }
    } else {
        line_step(decode_lines(lines.drop_last()), lines.last())
    }
}

/// The events of a server-sent-event reply.
pub open spec fn sse_events(input: Seq<char>) -> Seq<StreamEventV> {
    decode_lines(text_lines(input)).events
}

/// The lines of `s`, as `str::lines` yields them.
pub fn lines_of(s: &[char]) -> (r: Vec<Vec<char>>)
    ensures
        views_of(r@) == text_lines(s@),
{
    let pieces = split_chars(s, '\n');
    let ghost pv = views_of(pieces@);
    let mut out: Vec<Vec<char>> = Vec::new();
    let n = pieces.len();
    let mut i: usize = 0;
    while i + 1 < n
        invariant
            n == pieces@.len(),
            n >= 1,
            i + 1 <= n,
            pv == views_of(pieces@),
            views_of(out@) == pv.take(i as int).map_values(|l: Seq<char>| strip_cr(l)),
        decreases n - i,
    {
        let line = &pieces[i];
        let mut l: Vec<char> = Vec::new();
        let len = line.len();
        let keep = if len > 0 && line[len - 1] == '\r' { len - 1 } else { len };
        let mut k: usize = 0;
        while k < keep
            invariant
                keep <= len,
                len == line@.len(),
                l@ == line@.take(k as int),
                k <= keep,
            decreases keep - k,
        {
            l.push(line[k]);
            k = k + 1;
            assert(l@ =~= line@.take(k as int));
        }
        let ghost prev = out@;
        out.push(l);
        proof {
            assert(pv[i as int] == line@);
            assert(l@ =~= strip_cr(line@));
            assert(views_of(out@) =~= views_of(prev).push(l@));
            assert(pv.take(i + 1).map_values(|l: Seq<char>| strip_cr(l)) =~= pv.take(i as int).map_values(
                |l: Seq<char>| strip_cr(l),
            ).push(strip_cr(pv[i as int])));
        }
        i = i + 1;
    }
    proof {
        assert(pv.take(i as int) =~= pv.drop_last());
    }
    let last = &pieces[n - 1];
    if last.len() > 0 {
        let mut l: Vec<char> = Vec::new();
        let mut k: usize = 0;
        while k < last.len()
            invariant
                l@ == last@.take(k as int),
                k <= last@.len(),
            decreases last@.len() - k,
        {
            l.push(last[k]);
            k = k + 1;
            assert(l@ =~= last@.take(k as int));
        }
        let ghost prev = out@;
        out.push(l);
        proof {
            assert(l@ =~= last@);
            assert(views_of(out@) =~= views_of(prev).push(l@));
        }
    }
    out
}

/// The views of assembled calls.
pub open spec fn calls_view(c: Seq<(String, String)>) -> Seq<(Seq<char>, Seq<char>)> {
    c.map_values(|p: (String, String)| (p.0@, p.1@))
}

/// A count at the first of two pointers that designates something.
fn count_at_exec(v: &Json, a: &str, b: &str) -> (r: Option<u32>)
    ensures
        r == count_at(v@, a@, b@),
{
    let x = match v.pointer(a) {
        Some(x) => Some(x),
        None => v.pointer(b),
    };
    match x {
        Some(x) => match x.as_u64() {
            Some(n) => Some(n as u32),
            None => None,
        },
        None => None,
    }
}

/// Token usage reported in a payload.
fn usage(v: &Json) -> (r: Option<Usage>)
    ensures
        r == usage_of(v@),
{
    let input = count_at_exec(v, "/usage/prompt_tokens", "/usage/input_tokens");
    let output = count_at_exec(v, "/usage/completion_tokens", "/usage/output_tokens");
    match (input, output) {
        (Some(input), Some(output)) => Some(Usage { input, output, cached_input: 0 }),
        _ => None,
    }
}

/// The string at pointer `p` of `v`, or the empty string.
fn str_at_exec(v: &Json, p: &str) -> (r: String)
    ensures
        r@ == str_at(v@, p@),
{
    match v.pointer(p) {
        Some(x) => match x.as_str() {
            Some(s) => s.clone(),
            None => String::new(),
        },
        None => String::new(),
    }
}

/// Adds one chat tool-call fragment to the calls being assembled.
fn add_fragment_exec(calls: &mut Vec<(String, String)>, item: &Json)
    ensures
        calls_view(final(calls)@) == add_fragment(calls_view(old(calls)@), item@),
{
    let idx: usize = match item.get_str("index") {
        Some(x) => match x.as_u64() {
            Some(n) => #[verifier::truncate] (n as usize),
            None => 0,
        },
        None => 0,
    };
    assert(idx as int == fragment_index(item@));
    let ghost start = calls_view(calls@);
    if calls.len() <= idx {
        while calls.len() <= idx
            invariant
                calls_view(calls@) == start + Seq::new(
                    (calls@.len() - start.len()) as nat,
                    |k: int| (Seq::<char>::empty(), Seq::<char>::empty()),
                ),
                start.len() <= calls@.len() <= idx + 1,
            decreases idx + 1 - calls@.len(),
        {
            let ghost prev = calls@;
            let a = String::new();
            let b = String::new();
            calls.push((a, b));
            proof {
                assert(calls_view(calls@) =~= calls_view(prev).push((a@, b@)));
                assert(calls_view(calls@) =~= start + Seq::new(
                    (calls@.len() - start.len()) as nat,
                    |k: int| (Seq::<char>::empty(), Seq::<char>::empty()),
                ));
            }
        }
        assert(calls_view(calls@) =~= padded(start, idx as int));
    } else {
        assert(calls_view(calls@) =~= padded(start, idx as int));
    }
    let name = str_at_exec(item, "/function/name");
    let args = str_at_exec(item, "/function/arguments");
    let mut a = calls[idx].0.clone();
    let mut b = calls[idx].1.clone();
    crate::text::push_str(&mut a, name.as_str());
    crate::text::push_str(&mut b, args.as_str());
    let ghost before = calls@;
    calls.set(idx, (a, b));
    proof {
        assert(calls_view(calls@) =~= calls_view(before).update(
            idx as int,
            (before[idx as int].0@ + name@, before[idx as int].1@ + args@),
        ));
    }
}

/// Adds every fragment of `items`, in order.
fn add_fragments_exec(calls: &mut Vec<(String, String)>, items: &Vec<Json>)
    ensures
        calls_view(final(calls)@) == add_fragments(calls_view(old(calls)@), json_seq_view(items@)),
{
    let ghost start = calls_view(calls@);
    proof {
        lemma_seq_view(items@);
        assert(json_seq_view(items@).take(0) =~= Seq::<JsonV>::empty());
    }
    let mut i: usize = 0;
    while i < items.len()
        invariant
            i <= items@.len(),
            json_seq_view(items@).len() == items@.len(),
            forall|k: int| 0 <= k < items@.len() ==> #[trigger] json_seq_view(items@)[k] == items@[k]@,
            calls_view(calls@) == add_fragments(start, json_seq_view(items@).take(i as int)),
        decreases items@.len() - i,
    {
        add_fragment_exec(calls, &items[i]);
        proof {
            assert(json_seq_view(items@).take(i + 1).drop_last() =~= json_seq_view(items@).take(i as int));
        }
        i = i + 1;
    }
    assert(json_seq_view(items@).take(i as int) =~= json_seq_view(items@));
}

/// A finished responses-style tool call, if `v` is one.
fn finished_call_exec(v: &Json) -> (r: Option<StreamEvent>)
    ensures
        match r {
            Some(e) => finished_call(v@) == Some(e@),
            None => finished_call(v@) is None,
        },
{
    let is_done = match v.get_str("type") {
        Some(Json::Str(k)) => crate::text::str_eq(k.as_str(), "response.output_item.done"),
        _ => false,
    };
    if !is_done {
        return None;
    }
    let is_call = match v.pointer("/item/type") {
        Some(Json::Str(k)) => crate::text::str_eq(k.as_str(), "function_call"),
        _ => false,
    };
    if !is_call {
        return None;
    }
    let item = match v.get_str("item") {
        Some(item) => item,
        None => {
            return None;
        },
    };
    let name = match item.get_str("name") {
        Some(x) => x.as_str(),
        None => None,
    };
    let args = match item.get_str("arguments") {
        Some(x) => x.as_str(),
        None => None,
    };
    match (name, args) {
        (Some(name), Some(args)) => match Json::parse(args.as_str()) {
            Ok(input) => Some(StreamEvent::ToolCall { name: name.clone(), input }),
            Err(_) => None,
        },
        _ => None,
    }
}

/// A text fragment of `v`, if it carries one.
fn text_exec(v: &Json) -> (r: Option<String>)
    ensures
        match r {
            Some(t) => text_of(v@) == Some(t@),
            None => text_of(v@) is None,
        },
{
    let kind_ok = match v.get_str("type") {
        Some(Json::Str(k)) => {
            let kc = chars_of(k.as_str());
            let suffix = chars_of("output_text.delta");
            ends_with(&kc, &suffix)
        },
        _ => false,
    };
    if kind_ok {
        if let Some(Json::Str(d)) = v.get_str("delta") {
            return Some(d.clone());
        }
    }
    if let Some(Json::Str(t)) = v.pointer("/choices/0/delta/content") {
        return Some(t.clone());
    }
    match v.pointer("/content_block_delta/delta/text") {
        Some(Json::Str(t)) => Some(t.clone()),
        _ => None,
    }
}

/// Applies one JSON payload to the decoder state.
pub fn handle(v: &Json, events: &mut Vec<StreamEvent>, calls: &mut Vec<(String, String)>)
    ensures
        ({
            let st = handle_payload(SseState { events: events_view(old(events)@), calls: calls_view(old(calls)@) }, v@);
            events_view(final(events)@) == st.events && calls_view(final(calls)@) == st.calls
        }),
{
    let ghost ev0 = events_view(events@);
    if let Some(tokens) = usage(v) {
        events.push(StreamEvent::Usage(tokens));
        assert(events_view(events@) =~= ev0.push(StreamEventV::Usage(tokens)));
    }
    if let Some(Json::Array(items)) = v.pointer("/choices/0/delta/tool_calls") {
        add_fragments_exec(calls, items);
        return;
    }
    if let Some(call) = finished_call_exec(v) {
        let ghost evs = events_view(events@);
        events.push(call);
        assert(events_view(events@) =~= evs.push(call@));
        return;
    }
    if let Some(text) = text_exec(v) {
        let ghost evs = events_view(events@);
        let e = StreamEvent::Text(text);
        events.push(e);
        assert(events_view(events@) =~= evs.push(e@));
    }
}

/// Emits the assembled calls whose arguments parse, then clears them.
pub fn flush(events: &mut Vec<StreamEvent>, calls: &mut Vec<(String, String)>)
    ensures
        events_view(final(events)@) == events_view(old(events)@) + flushed(calls_view(old(calls)@)),
        final(calls)@.len() == 0,
{
    let ghost ev0 = events_view(events@);
    let ghost cv = calls_view(calls@);
    let mut i: usize = 0;
    assert(cv.take(0) =~= Seq::<(Seq<char>, Seq<char>)>::empty());
    assert(ev0 + flushed(cv.take(0)) =~= ev0);
    while i < calls.len()
        invariant
            i <= calls@.len(),
            cv == calls_view(calls@),
            events_view(events@) == ev0 + flushed(cv.take(i as int)),
        decreases calls@.len() - i,
    {
        proof {
            assert(cv.take(i + 1).drop_last() =~= cv.take(i as int));
            assert(cv[i as int] == (calls@[i as int].0@, calls@[i as int].1@));
        }
        match Json::parse(calls[i].1.as_str()) {
            Ok(input) => {
                let ghost evs = events_view(events@);
                let e = StreamEvent::ToolCall { name: calls[i].0.clone(), input };
                events.push(e);
                assert(events_view(events@) =~= evs.push(e@));
            },
            Err(_) => {},
        }
        i = i + 1;
    }
    assert(cv.take(i as int) =~= cv);
    *calls = Vec::new();
}

/// Decodes a server-sent-event reply: text deltas, usage, tool calls
/// (whole, or assembled from chat fragments at `[DONE]`), `[DONE]` markers
/// and malformed payloads, in order.
pub fn parse(input: &str) -> (r: Vec<StreamEvent>)
    ensures
        events_view(r@) == sse_events(input@),
{
    let text = chars_of(input);
    let lines = lines_of(&text);
    let ghost lv = views_of(lines@);
    let prefix = chars_of("data: ");
    let done = chars_of("[DONE]");
    let mut events: Vec<StreamEvent> = Vec::new();
    let mut calls: Vec<(String, String)> = Vec::new();
    let mut i: usize = 0;
    proof {
        assert(lv.take(0) =~= Seq::<Seq<char>>::empty());
        assert(events_view(events@) =~= Seq::<StreamEventV>::empty());
        assert(calls_view(calls@) =~= Seq::<(Seq<char>, Seq<char>)>::empty());
        reveal_strlit("data: ");
        assert(prefix@.len() == 6);
    }
    while i < lines.len()
        invariant
            i <= lines@.len(),
            lv == views_of(lines@),
            prefix@ == "data: "@,
            prefix@.len() == 6,
            done@ == "[DONE]"@,
            ({
                let st = decode_lines(lv.take(i as int));
                events_view(events@) == st.events && calls_view(calls@) == st.calls
            }),
        decreases lines@.len() - i,
    {
        proof {
            assert(lv.take(i + 1).drop_last() =~= lv.take(i as int));
            assert(lv[i as int] == lines@[i as int]@);
        }
        let line = &lines[i];
        if starts_with(line.as_slice(), &prefix) {
            let mut data: Vec<char> = Vec::new();
            let mut k: usize = 6;
            while k < line.len()
                invariant
                    6 <= k <= line@.len(),
                    data@ == line@.subrange(6, k as int),
                decreases line@.len() - k,
            {
                data.push(line[k]);
                k = k + 1;
                assert(data@ =~= line@.subrange(6, k as int));
            }
            assert(data@ =~= line@.skip(6));
            if crate::text::chars_eq(&data, &done) {
                flush(&mut events, &mut calls);
                let ghost evs = events_view(events@);
                events.push(StreamEvent::Done);
                assert(events_view(events@) =~= evs.push(StreamEventV::Done));
                assert(calls_view(calls@) =~= Seq::<(Seq<char>, Seq<char>)>::empty());
            } else {
                let ds = string_of(&data);
                match Json::parse(ds.as_str()) {
                    Ok(v) => {
                        handle(&v, &mut events, &mut calls);
                    },
                    Err(e) => {
                        let ghost evs = events_view(events@);
                        let m = StreamEvent::Malformed(concat("malformed provider content: ", e.as_str()));
                        events.push(m);
                        assert(events_view(events@) =~= evs.push(m@));
                    },
                }
            }
        }
        i = i + 1;
    }
    assert(lv.take(i as int) =~= lv);
    events
}

} // verus!
