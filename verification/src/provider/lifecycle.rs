//! The decisions of one provider turn: the token limit checked before a
//! request, and what a decoded reply does to the session.
use crate::json::{Json, JsonV};
use crate::model::{Event, Session, Stamp, TokenUsage, Usage};
use crate::provider::{events_view, StreamEvent, StreamEventV};
use crate::text::{decimal, decimal_string, push_str};
use vstd::prelude::*;

verus! {

/// The configured limit is set, not negative, and below the latest estimate.
pub open spec fn limit_exceeded(estimate: u32, limit: Option<i64>) -> bool {
    match limit {
        Some(l) => l >= 0 && estimate > l,
        None => false,
    }
}

/// The message of a token-limit stop.
pub open spec fn threshold_message(estimate: u32, limit: i64) -> Seq<char> {
    "token threshold exceeded: "@ + decimal(estimate as nat) + " > "@ + decimal(limit as nat)
}

/// Checks the latest request's input estimate against the configured limit
/// (a negative limit disables the check). When it is exceeded the session's
/// termination reason is set and the same message is returned as the error;
/// otherwise nothing changes.
pub fn enforce_token_limit(session: &mut Session, limit: Option<i64>) -> (r: Result<(), String>)
    ensures
        r is Err <==> limit_exceeded(old(session).metadata.token_estimate, limit),
        r is Ok ==> *final(session) == *old(session),
        r matches Err(m) ==> {
            &&& m@ == threshold_message(old(session).metadata.token_estimate, limit->0)
            &&& final(session).events == old(session).events
            &&& final(session).metadata.termination_reason matches Some(t) && t@ == m@
            &&& final(session).metadata == (crate::model::Metadata {
                termination_reason: final(session).metadata.termination_reason,
                ..old(session).metadata
            })
        },
{
    let limit = match limit {
        Some(l) => l,
        None => {
            return Ok(());
        },
    };
    if limit < 0 {
        return Ok(());
    }
    let input = session.metadata.token_estimate;
    if (input as i64) <= limit {
        return Ok(());
    }
    let mut reason = "token threshold exceeded: ".to_owned();
    let a = decimal_string(input as u64);
    push_str(&mut reason, a.as_str());
    push_str(&mut reason, " > ");
    let b = decimal_string(limit as u64);
    push_str(&mut reason, b.as_str());
    session.metadata.termination_reason = Some(reason.clone());
    Err(reason)
}

/// `after` is `before` with one request of `usage` (or, when the provider
/// reported none, of the local `estimate`) added.
pub open spec fn usage_recorded(before: TokenUsage, after: TokenUsage, usage: Option<Usage>, estimate: u32) -> bool {
    let (input, output, cached, method) = match usage {
        Some(u) => (u.input, u.output, u.cached_input, "provider_reported"@),
        None => (estimate, 0u32, 0u32, "local_tokenizer"@),
    };
    &&& after.marginal_input == input
    &&& after.cumulative_input == before.cumulative_input + input
    &&& after.cumulative_output == before.cumulative_output + output
    &&& after.cumulative_cached_input == before.cumulative_cached_input + cached
    &&& after.requests == before.requests + 1
    &&& after.method@ == method
}

/// The counters can take one more request of `usage` or `estimate`.
pub open spec fn usage_fits(before: TokenUsage, usage: Option<Usage>, estimate: u32) -> bool {
    let (input, output, cached) = match usage {
        Some(u) => (u.input, u.output, u.cached_input),
        None => (estimate, 0u32, 0u32),
    };
    &&& before.cumulative_input + input <= u64::MAX
    &&& before.cumulative_output + output <= u64::MAX
    &&& before.cumulative_cached_input + cached <= u64::MAX
    &&& before.requests + 1 <= u64::MAX
}

/// Adds one request to the session's token accounting: provider-reported
/// usage where there is some, the local estimate otherwise.
pub fn record_usage(session: &mut Session, usage: Option<Usage>, estimate: u32)
    requires
        usage_fits(old(session).metadata.token_usage, usage, estimate),
    ensures
        usage_recorded(old(session).metadata.token_usage, final(session).metadata.token_usage, usage, estimate),
        final(session).events == old(session).events,
        final(session).metadata == (crate::model::Metadata {
            token_usage: final(session).metadata.token_usage,
            ..old(session).metadata
        }),
{
    let (input, output, cached_input, method) = match usage {
        Some(tokens) => (tokens.input, tokens.output, tokens.cached_input, "provider_reported"),
        None => (estimate, 0u32, 0u32, "local_tokenizer"),
    };
    session.metadata.token_usage.marginal_input = input;
    session.metadata.token_usage.cumulative_input = session.metadata.token_usage.cumulative_input + input as u64;
    session.metadata.token_usage.cumulative_output = session.metadata.token_usage.cumulative_output + output as u64;
    session.metadata.token_usage.cumulative_cached_input = session.metadata.token_usage.cumulative_cached_input
        + cached_input as u64;
    session.metadata.token_usage.requests = session.metadata.token_usage.requests + 1;
    session.metadata.token_usage.method = method.to_owned();
}

/// The text, the last usage and the tool calls of a reply, in order; a
/// malformed element becomes a call named `__malformed__` carrying its text.
pub open spec fn collected(evs: Seq<StreamEventV>) -> (Seq<char>, Option<Usage>, Seq<(Seq<char>, JsonV)>)
    decreases evs.len(),
{
    if evs.len() == 0 {
        (Seq::empty(), None, Seq::empty())
    } else {
        let (t, u, c) = collected(evs.drop_last());
        match evs.last() {
            StreamEventV::Text(x) => (t + x, u, c),
            StreamEventV::Usage(x) => (t, Some(x), c),
            StreamEventV::ToolCall(n, i) => (t, u, c.push((n, i))),
            StreamEventV::Done => (t, u, c),
            StreamEventV::Malformed(m) => (t, u, c.push(("__malformed__"@, JsonV::Str(m)))),
        }
    }
}

/// The views of collected calls.
pub open spec fn calls_of(c: Seq<(String, Json)>) -> Seq<(Seq<char>, JsonV)> {
    c.map_values(|p: (String, Json)| (p.0@, p.1@))
}

/// Gathers a decoded reply: its text, its last usage report and its tool
/// calls, in order.
pub fn collect(events: &Vec<StreamEvent>) -> (r: (String, Option<Usage>, Vec<(String, Json)>))
    ensures
        (r.0@, r.1, calls_of(r.2@)) == collected(events_view(events@)),
{
    let ghost ev = events_view(events@);
    let mut text = String::new();
    let mut usage: Option<Usage> = None;
    let mut calls: Vec<(String, Json)> = Vec::new();
    let mut i: usize = 0;
    assert(ev.take(0) =~= Seq::<StreamEventV>::empty());
    assert(calls_of(calls@) =~= Seq::<(Seq<char>, JsonV)>::empty());
    while i < events.len()
        invariant
            i <= events@.len(),
            ev == events_view(events@),
            (text@, usage, calls_of(calls@)) == collected(ev.take(i as int)),
        decreases events@.len() - i,
    {
        proof {
            assert(ev.take(i + 1).drop_last() =~= ev.take(i as int));
            assert(ev[i as int] == events@[i as int]@);
        }
        let ghost prev = calls@;
        match &events[i] {
            StreamEvent::Text(t) => {
                push_str(&mut text, t.as_str());
            },
            StreamEvent::Usage(u) => {
                usage = Some(*u);
            },
            StreamEvent::ToolCall { name, input } => {
                calls.push((name.clone(), input.copy()));
                assert(calls_of(calls@) =~= calls_of(prev).push((name@, input@)));
            },
            StreamEvent::Done => {},
            StreamEvent::Malformed(m) => {
                let call = ("__malformed__".to_owned(), Json::Str(m.clone()));
                calls.push(call);
                assert(calls_of(calls@) =~= calls_of(prev).push(("__malformed__"@, JsonV::Str(m@))));
            },
        }
        i = i + 1;
    }
    assert(ev.take(i as int) =~= ev);
    (text, usage, calls)
}

/// The reply carried malformed content: its first call is the malformed
/// marker.
pub fn malformed(calls: &Vec<(String, Json)>) -> (r: bool)
    ensures
        r == (calls@.len() > 0 && calls@[0].0@ == "__malformed__"@),
{
    calls.len() > 0 && crate::text::str_eq(calls[0].0.as_str(), "__malformed__")
}

/// What a turn does after its reply was recorded.
#[derive(Debug, PartialEq)]
pub enum TurnStep {
    /// The reply had text: the run ends with it.
    Answer(String),
    /// The reply had only tool calls: run them and ask again.
    RunTools(Vec<(String, Json)>),
    /// The reply had neither.
    Fail(String),
}

/// Records a gathered reply in the session: the input estimate of the
/// request (reported, or the local `estimate`), its token usage, and the
/// answer as an assistant message, recorded with `stamp`, when there is
/// text. Text ends the turn; otherwise tool calls are run, and a reply with
/// neither fails.
pub fn finish_turn(
    session: &mut Session,
    answer: String,
    usage: Option<Usage>,
    calls: Vec<(String, Json)>,
    estimate: u32,
    stamp: Stamp,
) -> (step: TurnStep)
    requires
        usage_fits(old(session).metadata.token_usage, usage, estimate),
    ensures
        final(session).metadata.token_estimate == (match usage {
            Some(u) => u.input,
            None => estimate,
        }),
        usage_recorded(old(session).metadata.token_usage, final(session).metadata.token_usage, usage, estimate),
        answer@.len() > 0 ==> {
            &&& step == TurnStep::Answer(answer)
            &&& final(session).events@.len() == old(session).events@.len() + 1
            &&& final(session).events@.take(old(session).events@.len() as int) == old(session).events@
            &&& (final(session).events@.last() matches Event::Message { event_id, timestamp, role, content, .. }
                && role@ == "assistant"@ && content == answer && event_id == stamp.event_id && timestamp
                == stamp.timestamp)
            &&& final(session).metadata.updated_at == stamp.timestamp
        },
        answer@.len() == 0 ==> {
            &&& final(session).events == old(session).events
            &&& calls@.len() == 0 ==> (step matches TurnStep::Fail(m) && m@ == "provider returned no text"@)
            &&& calls@.len() > 0 ==> step == TurnStep::RunTools(calls)
        },
{
    let input = match usage {
        Some(u) => u.input,
        None => estimate,
    };
    session.metadata.token_estimate = input;
    record_usage(session, usage, estimate);
    if !answer.as_str().is_empty() {
        proof {
            assert(answer@.len() > 0);
        }
        let now = stamp.timestamp.clone();
        let message = Session::message("assistant", answer.clone(), stamp);
        let ghost before = session.events@;
        session.append(message, now);
        assert(session.events@.take(before.len() as int) =~= before);
        return TurnStep::Answer(answer);
    }
    proof {
        assert(answer@.len() == 0);
    }
    if calls.len() == 0 {
        return TurnStep::Fail("provider returned no text".to_owned());
    }
    TurnStep::RunTools(calls)
}

} // verus!
