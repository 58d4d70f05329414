//! The session model: metadata, the event log and token accounting.
use crate::config::Policy;
use crate::json::Json;
use crate::session::{hex_of, id_of_bytes, is_lower_hex, lemma_hex_of, random_bytes};
use crate::text::{chars_of, push_char, push_str, range_string};
use vstd::prelude::*;

verus! {

/// Lifecycle state of a session.
#[derive(Debug, Clone, Copy, PartialEq, Eq, Structural)]
pub enum Status {
    Idle,
    Running,
    HookRunning,
    Failed,
    Cancelled,
    Terminated,
}

/// Policy and prompt of an agent, as captured when a session is created.
#[derive(Debug, Clone, PartialEq, Eq)]
pub struct AgentSnapshot {
    pub policy: Policy,
    pub prompt: String,
}

/// Token accounting of a session.
#[derive(Debug, Clone, PartialEq, Eq)]
pub struct TokenUsage {
    pub marginal_input: u32,
    pub cumulative_input: u64,
    pub cumulative_output: u64,
    pub cumulative_cached_input: u64,
    pub requests: u64,
    /// `local_tokenizer` or `provider_reported`.
    pub method: String,
}

/// Token counts that a provider reports for one request.
#[derive(Debug, Clone, Copy, PartialEq, Eq, Structural)]
pub struct Usage {
    pub input: u32,
    pub output: u32,
    pub cached_input: u32,
}

/// One call of a tool requested by the model.
#[derive(Debug, PartialEq)]
pub struct ToolCall {
    pub call_id: String,
    pub name: String,
    pub input: Json,
}

/// One entry of a session's event log.
#[derive(Debug, PartialEq)]
pub enum Event {
    Message { event_id: String, timestamp: String, role: String, content: String, token_usage: TokenUsage },
    ToolCall { event_id: String, timestamp: String, calls: Vec<ToolCall>, token_usage: TokenUsage },
    ToolResult { event_id: String, timestamp: String, call_id: String, content: Json, token_usage: TokenUsage },
    Reasoning { event_id: String, timestamp: String, content: String, token_usage: TokenUsage },
    Usage { event_id: String, timestamp: String, input: u32, output: u32, token_usage: TokenUsage },
    Termination { event_id: String, timestamp: String, reason: String, token_usage: TokenUsage },
    Failure { event_id: String, timestamp: String, message: String, token_usage: TokenUsage },
}

/// A lifecycle log line.
#[derive(Debug, PartialEq)]
pub struct LogRecord {
    pub event_id: String,
    pub timestamp: String,
    pub level: String,
    pub message: String,
    pub fields: Json,
}

/// A finished reply of a model.
#[derive(Debug, Clone, PartialEq, Eq)]
pub struct Reply {
    pub message: String,
    pub model: String,
}

/// Everything about a session but its events.
#[derive(Debug, PartialEq)]
pub struct Metadata {
    pub id: String,
    pub label: Option<String>,
    pub working_dir: Option<String>,
    pub created_at: String,
    pub policy: Policy,
    pub status: Status,
    pub pid: Option<u32>,
    pub updated_at: String,
    pub token_estimate: u32,
    pub token_usage: TokenUsage,
    pub termination_reason: Option<String>,
}

/// A session: its metadata and its append-only event log.
#[derive(Debug, PartialEq)]
pub struct Session {
    pub metadata: Metadata,
    pub events: Vec<Event>,
}

/// `s` is a lowercase hyphenated UUID text: 36 characters, hyphens at
/// positions 8, 13, 18 and 23 and lowercase hex digits elsewhere.
pub open spec fn is_uuid_text(s: Seq<char>) -> bool {
    &&& s.len() == 36
    &&& forall|i: int|
        0 <= i < 36 ==> if i == 8 || i == 13 || i == 18 || i == 23 {
            s[i] == '-'
        } else {
            ('0' <= #[trigger] s[i] <= '9') || ('a' <= s[i] <= 'f')
        }
}

/// The bytes of a version 4 UUID made of random `bytes`: the version (4) in
/// the high half of byte 6 and the RFC 4122 variant in the top bits of byte
/// 8, as `uuid::Builder::from_random_bytes` sets them.
pub open spec fn v4_bytes(b: Seq<u8>) -> Seq<u8> {
    b.update(6, (b[6] % 16 + 64) as u8).update(8, (b[8] % 64 + 128) as u8)
}

/// Hexadecimal text of 16 bytes with hyphens after the 8th, 12th, 16th and
/// 20th digit.
pub open spec fn hyphenated(h: Seq<char>) -> Seq<char> {
    h.subrange(0, 8) + seq!['-'] + h.subrange(8, 12) + seq!['-'] + h.subrange(12, 16) + seq!['-'] + h.subrange(16, 20)
        + seq!['-'] + h.subrange(20, 32)
}

/// The text of the version 4 UUID made of random `bytes`, as the `uuid`
/// crate writes it: lowercase and hyphenated.
pub open spec fn uuid_v4_text(b: Seq<u8>) -> Seq<char> {
    hyphenated(hex_of(v4_bytes(b)))
}

/// The text of a version 4 UUID made of 16 random bytes is a UUID text.
pub proof fn lemma_uuid_v4_text(b: Seq<u8>)
    requires
        b.len() == 16,
    ensures
        is_uuid_text(uuid_v4_text(b)),
{
    let h = hex_of(v4_bytes(b));
    lemma_hex_of(v4_bytes(b));
    let t = uuid_v4_text(b);
    assert(h.len() == 32);
    assert(t.len() == 36);
    assert forall|i: int| 0 <= i < 36 implies if i == 8 || i == 13 || i == 18 || i == 23 {
        t[i] == '-'
    } else {
        ('0' <= #[trigger] t[i] <= '9') || ('a' <= t[i] <= 'f')
    } by {
        if i < 8 {
            assert(t[i] == h[i]);
            assert(is_lower_hex(h[i]));
        } else if i == 8 || i == 13 || i == 18 || i == 23 {
        } else if i < 13 {
            assert(t[i] == h[i - 1]);
            assert(is_lower_hex(h[i - 1]));
        } else if i < 18 {
            assert(t[i] == h[i - 2]);
            assert(is_lower_hex(h[i - 2]));
        } else if i < 23 {
            assert(t[i] == h[i - 3]);
            assert(is_lower_hex(h[i - 3]));
        } else {
            assert(t[i] == h[i - 4]);
            assert(is_lower_hex(h[i - 4]));
        }
    }
}

/// The version 4 UUID made of 16 random bytes, as lowercase hyphenated text
/// (what `uuid::Builder::from_random_bytes(bytes).into_uuid().to_string()`
/// gives).
pub fn uuid_of_bytes(bytes: &Vec<u8>) -> (s: String)
    requires
        bytes@.len() == 16,
    ensures
        s@ == uuid_v4_text(bytes@),
        is_uuid_text(s@),
{
    let mut v = bytes.clone();
    assert(v@ == bytes@);
    let b6 = v[6];
    let b8 = v[8];
    v.set(6, b6 % 16 + 64);
    v.set(8, b8 % 64 + 128);
    assert(v@ =~= v4_bytes(bytes@));
    let hex = id_of_bytes(&v);
    let c = chars_of(hex.as_str());
    proof {
        lemma_hex_of(v@);
    }
    let mut s = range_string(&c, 0, 8);
    push_char(&mut s, '-');
    push_str(&mut s, range_string(&c, 8, 12).as_str());
    push_char(&mut s, '-');
    push_str(&mut s, range_string(&c, 12, 16).as_str());
    push_char(&mut s, '-');
    push_str(&mut s, range_string(&c, 16, 20).as_str());
    push_char(&mut s, '-');
    push_str(&mut s, range_string(&c, 20, 32).as_str());
    assert(s@ =~= hyphenated(c@));
    proof {
        lemma_uuid_v4_text(bytes@);
    }
    s
}

/// An RFC 3339 timestamp in UTC as `chrono` writes it with `use_z`: at
/// least the 19 characters of date and time, and the zone written `Z` last.
pub open spec fn is_utc_stamp(s: Seq<char>) -> bool {
    s.len() >= 20 && s.last() == 'Z'
}

/// The time since the Unix epoch, in whole seconds and the nanoseconds
/// beyond them (`SystemTime::elapsed` of `UNIX_EPOCH`), or nothing where
/// the clock reads earlier than the epoch. Which instant is read depends on
/// the clock; only the documented bound on the nanoseconds is claimed.
#[verifier::external_body]
fn since_epoch() -> (r: Option<(u64, u32)>)
    ensures
        r matches Some(t) ==> t.1 < 1_000_000_000,
{
    match std::time::UNIX_EPOCH.elapsed() {
        Ok(d) => Some((d.as_secs(), d.subsec_nanos())),
        Err(_) => None,
    }
}

/// What `chrono::DateTime::<Utc>::from_timestamp(secs, nanos)` gives,
/// written with `to_rfc3339_opts(SecondsFormat::AutoSi, true)`: nothing where
/// the instant is out of `chrono`'s range.
pub uninterp spec fn utc_text_of(secs: int, nanos: int) -> Option<Seq<char>>;

/// The RFC 3339 text in UTC of an instant given in seconds and nanoseconds
/// since the epoch (`DateTime::from_timestamp`, then `to_rfc3339_opts` with
/// `AutoSi` and `use_z`). The text is named; its source writes the date, the
/// time and the zero offset as `Z`, which is what `is_utc_stamp` states.
#[verifier::external_body]
fn utc_text(secs: i64, nanos: u32) -> (r: Option<String>)
    ensures
        match r {
            Some(t) => utc_text_of(secs as int, nanos as int) == Some(t@) && is_utc_stamp(t@),
            None => utc_text_of(secs as int, nanos as int) is None,
        },
{
    match chrono::DateTime::from_timestamp(secs, nanos) {
        Some(t) => Some(t.to_rfc3339_opts(chrono::SecondsFormat::AutoSi, true)),
        None => None,
    }
}

/// A fresh random identifier for a record: a version 4 UUID of 16 random
/// bytes, or nothing where the random source fails.
pub fn fresh_id() -> (r: Option<String>)
    ensures
        r matches Some(s) ==> is_uuid_text(s@),
{
    match random_bytes() {
        Some(bytes) => Some(uuid_of_bytes(&bytes)),
        None => None,
    }
}

/// The RFC 3339 text in UTC of the instant `secs` seconds and `nanos`
/// nanoseconds after the epoch; nothing past what `chrono` represents.
pub fn time_text(secs: u64, nanos: u32) -> (r: Option<String>)
    ensures
        secs <= i64::MAX ==> match r {
            Some(t) => utc_text_of(secs as int, nanos as int) == Some(t@),
            None => utc_text_of(secs as int, nanos as int) is None,
        },
        secs > i64::MAX ==> r is None,
        r matches Some(t) ==> is_utc_stamp(t@),
{
    if secs <= 9_223_372_036_854_775_807u64 {
        utc_text(secs as i64, nanos)
    } else {
        None
    }
}

/// The current time as RFC 3339 text in UTC, or nothing where the clock
/// reads before the epoch or past what `chrono` represents.
pub fn current_time() -> (r: Option<String>)
    ensures
        r matches Some(s) ==> is_utc_stamp(s@),
{
    match since_epoch() {
        Some((secs, nanos)) => time_text(secs, nanos),
        None => None,
    }
}

/// A fresh identity for a record: a new event id and the current time.
#[derive(Debug, Clone, PartialEq, Eq)]
pub struct Stamp {
    pub event_id: String,
    pub timestamp: String,
}

impl Stamp {
    /// A fresh event id and the current time, or nothing where the random
    /// source or the clock fails.
    pub fn fresh() -> (r: Option<Stamp>)
        ensures
            r matches Some(s) ==> is_uuid_text(s.event_id@) && is_utc_stamp(s.timestamp@),
    {
        let event_id = match fresh_id() {
            Some(id) => id,
            None => {
                return None;
            },
        };
        let timestamp = match current_time() {
            Some(t) => t,
            None => {
                return None;
            },
        };
        Some(Stamp { event_id, timestamp })
    }
}

impl TokenUsage {
    /// All counters are zero and the method is empty.
    pub open spec fn is_zero(&self) -> bool {
        &&& self.marginal_input == 0
        &&& self.cumulative_input == 0
        &&& self.cumulative_output == 0
        &&& self.cumulative_cached_input == 0
        &&& self.requests == 0
        &&& self.method@.len() == 0
    }

    /// All counters zero and no method.
    pub fn zero() -> (u: TokenUsage)
        ensures
            u.is_zero(),
    {
        TokenUsage {
            marginal_input: 0,
            cumulative_input: 0,
            cumulative_output: 0,
            cumulative_cached_input: 0,
            requests: 0,
            method: String::new(),
        }
    }

    /// A copy of these counters.
    pub fn copy(&self) -> (u: TokenUsage)
        ensures
            u == *self,
    {
        TokenUsage {
            marginal_input: self.marginal_input,
            cumulative_input: self.cumulative_input,
            cumulative_output: self.cumulative_output,
            cumulative_cached_input: self.cumulative_cached_input,
            requests: self.requests,
            method: self.method.clone(),
        }
    }
}

/// `e` with its token usage replaced by `u`.
pub open spec fn with_usage(e: Event, u: TokenUsage) -> Event {
    match e {
        Event::Message { event_id, timestamp, role, content, .. } => Event::Message { event_id, timestamp, role, content, token_usage: u },
        Event::ToolCall { event_id, timestamp, calls, .. } => Event::ToolCall { event_id, timestamp, calls, token_usage: u },
        Event::ToolResult { event_id, timestamp, call_id, content, .. } => Event::ToolResult { event_id, timestamp, call_id, content, token_usage: u },
        Event::Reasoning { event_id, timestamp, content, .. } => Event::Reasoning { event_id, timestamp, content, token_usage: u },
        Event::Usage { event_id, timestamp, input, output, .. } => Event::Usage { event_id, timestamp, input, output, token_usage: u },
        Event::Termination { event_id, timestamp, reason, .. } => Event::Termination { event_id, timestamp, reason, token_usage: u },
        Event::Failure { event_id, timestamp, message, .. } => Event::Failure { event_id, timestamp, message, token_usage: u },
    }
}

/// `e` is the result of the call `id`.
pub open spec fn is_result_for(e: Event, id: Seq<char>) -> bool {
    match e {
        Event::ToolResult { call_id, .. } => call_id@ == id,
        _ => false,
    }
}

/// Some event of `events` is the result of the call `id`.
pub open spec fn has_result(events: Seq<Event>, id: Seq<char>) -> bool {
    exists|i: int| 0 <= i < events.len() && is_result_for(#[trigger] events[i], id)
}

/// The ids, in order, of the calls of `calls` that have no result in `all`.
pub open spec fn open_calls(calls: Seq<ToolCall>, all: Seq<Event>) -> Seq<Seq<char>>
    decreases calls.len(),
{
    if calls.len() == 0 {
        Seq::empty()
    } else {
        let rest = open_calls(calls.drop_last(), all);
        if has_result(all, calls.last().call_id@) {
            rest
        } else {
            rest.push(calls.last().call_id@)
        }
    }
}

/// The ids, in order, of the calls requested in `events` that have no result
/// anywhere in `all`.
pub open spec fn pending_calls(events: Seq<Event>, all: Seq<Event>) -> Seq<Seq<char>>
    decreases events.len(),
{
    if events.len() == 0 {
        Seq::empty()
    } else {
        pending_calls(events.drop_last(), all) + match events.last() {
            Event::ToolCall { calls, .. } => open_calls(calls@, all),
            _ => Seq::empty(),
        }
    }
}

/// Some string of `v` has the view `id`.
pub open spec fn holds_view(v: Seq<String>, id: Seq<char>) -> bool {
    exists|k: int| 0 <= k < v.len() && (#[trigger] v[k])@ == id
}

/// Some event among the first `n` of `events` is the result of the call `id`.
pub open spec fn result_before(events: Seq<Event>, n: int, id: Seq<char>) -> bool {
    exists|j: int| 0 <= j < n && is_result_for(#[trigger] events[j], id)
}

/// `v` holds a string whose view is `s`.
fn contains_string(v: &Vec<String>, s: &String) -> (r: bool)
    ensures
        r == holds_view(v@, s@),
{
    let mut k: usize = 0;
    while k < v.len()
        invariant
            k <= v@.len(),
            forall|j: int| 0 <= j < k ==> (#[trigger] v@[j])@ != s@,
        decreases v@.len() - k,
    {
        if v[k] == *s {
            return true;
        }
        k = k + 1;
    }
    false
}

/// `a` equals `b` in every field but `updated_at`.
pub open spec fn same_but_updated(a: Metadata, b: Metadata) -> bool {
    a == Metadata { updated_at: a.updated_at, ..b }
}

impl Event {
    /// Replaces the token usage recorded with this event.
    pub fn set_token_usage(&mut self, token_usage: TokenUsage)
        ensures
            *final(self) == with_usage(*old(self), token_usage),
    {
        match self {
            Event::Message { token_usage: usage, .. } => *usage = token_usage,
            Event::ToolCall { token_usage: usage, .. } => *usage = token_usage,
            Event::ToolResult { token_usage: usage, .. } => *usage = token_usage,
            Event::Reasoning { token_usage: usage, .. } => *usage = token_usage,
            Event::Usage { token_usage: usage, .. } => *usage = token_usage,
            Event::Termination { token_usage: usage, .. } => *usage = token_usage,
            Event::Failure { token_usage: usage, .. } => *usage = token_usage,
        }
    }
}

impl Session {
    /// A new idle session with the given identifier and creation time: no
    /// events, no worker, the agent's policy (or the empty policy), and token
    /// accounting that starts at zero with the local tokenizer.
    pub fn with_identity(
        id: String,
        now: String,
        label: Option<String>,
        working_dir: Option<String>,
        agent: Option<AgentSnapshot>,
    ) -> (s: Session)
        ensures
            s.metadata.id == id,
            s.metadata.label == label,
            s.metadata.working_dir == working_dir,
            s.metadata.created_at == now,
            s.metadata.updated_at == now,
            match agent {
                Some(a) => s.metadata.policy == a.policy,
                None => s.metadata.policy.is_empty(),
            },
            s.metadata.status == Status::Idle,
            s.metadata.pid is None,
            s.metadata.token_estimate == 0,
            s.metadata.token_usage.marginal_input == 0,
            s.metadata.token_usage.cumulative_input == 0,
            s.metadata.token_usage.cumulative_output == 0,
            s.metadata.token_usage.cumulative_cached_input == 0,
            s.metadata.token_usage.requests == 0,
            s.metadata.token_usage.method@ == "local_tokenizer"@,
            s.metadata.termination_reason is None,
            s.events@.len() == 0,
    {
        let policy = match agent {
            Some(snapshot) => snapshot.policy,
            None => Policy::empty(),
        };
        let mut token_usage = TokenUsage::zero();
        token_usage.method = "local_tokenizer".to_owned();
        let created_at = now.clone();
        Session {
            metadata: Metadata {
                id,
                label,
                working_dir,
                created_at,
                updated_at: now,
                policy,
                status: Status::Idle,
                pid: None,
                token_estimate: 0,
                token_usage,
                termination_reason: None,
            },
            events: Vec::new(),
        }
    }

    /// A new idle session with a fresh UUID and the current time (see
    /// `with_identity` for everything else), or nothing where the random
    /// source or the clock fails.
    pub fn new(label: Option<String>, working_dir: Option<String>, agent: Option<AgentSnapshot>) -> (r: Option<Session>)
        ensures
            r matches Some(s) ==> {
                &&& is_uuid_text(s.metadata.id@)
                &&& is_utc_stamp(s.metadata.created_at@)
                &&& s.metadata.label == label
                &&& s.metadata.working_dir == working_dir
                &&& s.metadata.created_at == s.metadata.updated_at
                &&& match agent {
                    Some(a) => s.metadata.policy == a.policy,
                    None => s.metadata.policy.is_empty(),
                }
                &&& s.metadata.status == Status::Idle
                &&& s.metadata.pid is None
                &&& s.metadata.token_estimate == 0
                &&& s.metadata.token_usage.marginal_input == 0
                &&& s.metadata.token_usage.cumulative_input == 0
                &&& s.metadata.token_usage.cumulative_output == 0
                &&& s.metadata.token_usage.cumulative_cached_input == 0
                &&& s.metadata.token_usage.requests == 0
                &&& s.metadata.token_usage.method@ == "local_tokenizer"@
                &&& s.metadata.termination_reason is None
                &&& s.events@.len() == 0
            },
    {
        let stamp = match Stamp::fresh() {
            Some(s) => s,
            None => {
                return None;
            },
        };
        Some(Session::with_identity(stamp.event_id, stamp.timestamp, label, working_dir, agent))
    }

    /// Appends `event`, stamped with the session's current token usage, and
    /// sets `updated_at` to `now`; nothing else changes.
    pub fn append(&mut self, event: Event, now: String)
        ensures
            final(self).events@ == old(self).events@.push(with_usage(event, old(self).metadata.token_usage)),
            same_but_updated(final(self).metadata, old(self).metadata),
            final(self).metadata.updated_at == now,
    {
        let mut event = event;
        event.set_token_usage(self.metadata.token_usage.copy());
        self.events.push(event);
        self.metadata.updated_at = now;
    }

    /// A message event with the stamp's id and time and zero token usage.
    pub fn message(role: &str, content: String, stamp: Stamp) -> (e: Event)
        ensures
            e matches Event::Message { event_id, timestamp, role: r, content: c, token_usage } && event_id
                == stamp.event_id && timestamp == stamp.timestamp && r@ == role@ && c == content
                && token_usage.is_zero(),
    {
        Event::Message {
            event_id: stamp.event_id,
            timestamp: stamp.timestamp,
            role: role.to_owned(),
            content,
            token_usage: TokenUsage::zero(),
        }
    }

    /// Ids, in order of request, of the tool calls that have no result yet.
    pub fn pending_tool_call_ids(&self) -> (ids: Vec<String>)
        ensures
            ids@.map_values(|s: String| s@) == pending_calls(self.events@, self.events@),
    {
        let events = &self.events;
        let mut completed: Vec<String> = Vec::new();
        let mut i: usize = 0;
        while i < events.len()
            invariant
                i <= events@.len(),
                forall|id: Seq<char>|
                    #[trigger] holds_view(completed@, id) <==> result_before(events@, i as int, id),
            decreases events@.len() - i,
        {
            let ghost before = completed@;
            match &events[i] {
                Event::ToolResult { call_id, .. } => {
                    completed.push(call_id.clone());
                    proof {
                        assert forall|id: Seq<char>|
                            #[trigger] holds_view(completed@, id) <==> result_before(events@, i + 1, id) by {
                            assert(holds_view(before, id) <==> result_before(events@, i as int, id));
                            if exists|j: int| 0 <= j < i + 1 && is_result_for(#[trigger] events@[j], id) {
                                let j = choose|j: int| 0 <= j < i + 1 && is_result_for(#[trigger] events@[j], id);
                                if j < i {
                                    let k = choose|k: int| 0 <= k < before.len() && (#[trigger] before[k])@ == id;
                                    assert(completed@[k] == before[k]);
                                } else {
                                    assert(completed@[before.len() as int]@ == id);
                                }
                            }
                            if exists|k: int| 0 <= k < completed@.len() && (#[trigger] completed@[k])@ == id {
                                let k = choose|k: int| 0 <= k < completed@.len() && (#[trigger] completed@[k])@ == id;
                                if k < before.len() {
                                    assert(before[k] == completed@[k]);
                                } else {
                                    assert(is_result_for(events@[i as int], id));
                                }
                            }
                        }
                    }
                },
                _ => {
                    proof {
                        assert forall|id: Seq<char>|
                            #[trigger] holds_view(completed@, id) <==> result_before(events@, i + 1, id) by {
                            assert(holds_view(completed@, id) <==> result_before(events@, i as int, id));
                            if exists|j: int| 0 <= j < i + 1 && is_result_for(#[trigger] events@[j], id) {
                                let j = choose|j: int| 0 <= j < i + 1 && is_result_for(#[trigger] events@[j], id);
                                assert(j < i);
                            }
                        }
                    }
                },
            }
            i = i + 1;
        }
        let ghost all = events@;
        assert forall|id: Seq<char>| #[trigger] holds_view(completed@, id) <==> has_result(all, id) by {
            assert(holds_view(completed@, id) <==> result_before(events@, i as int, id));
        }
        let mut ids: Vec<String> = Vec::new();
        let mut e: usize = 0;
        assert(all.take(0) =~= Seq::<Event>::empty());
        while e < events.len()
            invariant
                all == events@,
                e <= all.len(),
                forall|id: Seq<char>| #[trigger] holds_view(completed@, id) <==> has_result(all, id),
                ids@.map_values(|s: String| s@) == pending_calls(all.take(e as int), all),
            decreases all.len() - e,
        {
            proof {
                assert(all.take(e + 1).drop_last() =~= all.take(e as int));
            }
            match &events[e] {
                Event::ToolCall { calls, .. } => {
                    let ghost base = ids@.map_values(|s: String| s@);
                    let mut c: usize = 0;
                    assert(calls@.take(0) =~= Seq::<ToolCall>::empty());
                    assert(base + open_calls(calls@.take(0), all) =~= base);
                    while c < calls.len()
                        invariant
                            c <= calls@.len(),
                            forall|id: Seq<char>| #[trigger] holds_view(completed@, id) <==> has_result(all, id),
                            ids@.map_values(|s: String| s@) == base + open_calls(calls@.take(c as int), all),
                        decreases calls@.len() - c,
                    {
                        proof {
                            assert(calls@.take(c + 1).drop_last() =~= calls@.take(c as int));
                        }
                        let done = contains_string(&completed, &calls[c].call_id);
                        if !done {
                            let ghost prev = ids@;
                            ids.push(calls[c].call_id.clone());
                            proof {
                                assert(ids@.map_values(|s: String| s@) =~= prev.map_values(|s: String| s@).push(calls@[c as int].call_id@));
                            }
                        }
                        c = c + 1;
                        proof {
                            assert(ids@.map_values(|s: String| s@) =~= base + open_calls(calls@.take(c as int), all));
                        }
                    }
                    proof {
                        assert(calls@.take(c as int) =~= calls@);
                        assert(ids@.map_values(|s: String| s@) =~= pending_calls(all.take(e + 1), all));
                    }
                },
                _ => {
                    proof {
                        assert(ids@.map_values(|s: String| s@) =~= pending_calls(all.take(e + 1), all));
                    }
                },
            }
            e = e + 1;
        }
        assert(all.take(e as int) =~= all);
        ids
    }
}

/// A result found in a prefix is found in the whole.
pub proof fn lemma_has_result_grows(a: Seq<Event>, b: Seq<Event>, id: Seq<char>)
    requires
        a.len() <= b.len(),
        b.take(a.len() as int) == a,
        has_result(a, id),
    ensures
        has_result(b, id),
{
    let i = choose|i: int| 0 <= i < a.len() && is_result_for(#[trigger] a[i], id);
    assert(b[i] == b.take(a.len() as int)[i]);
    assert(is_result_for(b[i], id));
}

/// Every call of `calls` whose result is missing from `all` is open.
pub proof fn lemma_open_calls_member(calls: Seq<ToolCall>, all: Seq<Event>, c: int)
    requires
        0 <= c < calls.len(),
        !has_result(all, calls[c].call_id@),
    ensures
        open_calls(calls, all).contains(calls[c].call_id@),
    decreases calls.len(),
{
    let rest = open_calls(calls.drop_last(), all);
    if c == calls.len() - 1 {
        assert(open_calls(calls, all) == rest.push(calls.last().call_id@));
        assert(open_calls(calls, all)[rest.len() as int] == calls[c].call_id@);
    } else {
        lemma_open_calls_member(calls.drop_last(), all, c);
        assert(calls.drop_last()[c] == calls[c]);
        let k = choose|k: int| 0 <= k < rest.len() && rest[k] == calls[c].call_id@;
        if has_result(all, calls.last().call_id@) {
            assert(open_calls(calls, all)[k] == rest[k]);
        } else {
            assert(open_calls(calls, all)[k] == rest[k]);
        }
    }
}

/// The id of call `c` of event `e`, where `e` requests calls and has one
/// at that position.
pub open spec fn call_id_at(e: Event, c: int) -> Option<Seq<char>> {
    match e {
        Event::ToolCall { calls, .. } => if 0 <= c < calls@.len() {
            Some(calls@[c].call_id@)
        } else {
            None
        },
        _ => None,
    }
}

/// A call without a result in `all` is pending in `events`.
pub proof fn lemma_pending_member(events: Seq<Event>, all: Seq<Event>, j: int, c: int, id: Seq<char>)
    requires
        0 <= j < events.len(),
        call_id_at(events[j], c) == Some(id),
        !has_result(all, id),
    ensures
        pending_calls(events, all).contains(id),
    decreases events.len(),
{
    let prefix = events.drop_last();
    let tail = match events.last() {
        Event::ToolCall { calls, .. } => open_calls(calls@, all),
        _ => Seq::empty(),
    };
    assert(pending_calls(events, all) == pending_calls(prefix, all) + tail);
    if j == events.len() - 1 {
        if let Event::ToolCall { calls, .. } = events[j] {
            lemma_open_calls_member(calls@, all, c);
            let k = choose|k: int| 0 <= k < tail.len() && tail[k] == id;
            assert(pending_calls(events, all)[pending_calls(prefix, all).len() + k] == tail[k]);
        }
    } else {
        assert(prefix[j] == events[j]);
        lemma_pending_member(prefix, all, j, c, id);
        let p = pending_calls(prefix, all);
        let k = choose|k: int| 0 <= k < p.len() && p[k] == id;
        assert(pending_calls(events, all)[k] == p[k]);
    }
}

/// Calls whose results are all in `all` are none of them open.
pub proof fn lemma_open_calls_closed(calls: Seq<ToolCall>, all: Seq<Event>)
    requires
        forall|c: int| 0 <= c < calls.len() ==> has_result(all, #[trigger] calls[c].call_id@),
    ensures
        open_calls(calls, all) == Seq::<Seq<char>>::empty(),
    decreases calls.len(),
{
    if calls.len() > 0 {
        assert forall|c: int| 0 <= c < calls.drop_last().len() implies has_result(
            all,
            #[trigger] calls.drop_last()[c].call_id@,
        ) by {
            assert(calls.drop_last()[c] == calls[c]);
        }
        lemma_open_calls_closed(calls.drop_last(), all);
        assert(has_result(all, calls[calls.len() - 1].call_id@));
    }
}

/// Every call requested in `events` has a result in `all`.
pub open spec fn all_answered(events: Seq<Event>, all: Seq<Event>) -> bool {
    forall|j: int, c: int|
        0 <= j < events.len() ==> match #[trigger] call_id_at(events[j], c) {
            Some(id) => has_result(all, id),
            None => true,
        }
}

/// Where every call has a result, no call is pending.
pub proof fn lemma_pending_empty(events: Seq<Event>, all: Seq<Event>)
    requires
        all_answered(events, all),
    ensures
        pending_calls(events, all) == Seq::<Seq<char>>::empty(),
    decreases events.len(),
{
    if events.len() > 0 {
        let prefix = events.drop_last();
        assert forall|j: int, c: int| 0 <= j < prefix.len() implies match #[trigger] call_id_at(prefix[j], c) {
            Some(id) => has_result(all, id),
            None => true,
        } by {
            assert(prefix[j] == events[j]);
            assert(call_id_at(events[j], c) == call_id_at(prefix[j], c));
        }
        lemma_pending_empty(prefix, all);
        if let Event::ToolCall { calls, .. } = events.last() {
            assert forall|c: int| 0 <= c < calls@.len() implies has_result(all, #[trigger] calls@[c].call_id@) by {
                assert(call_id_at(events[events.len() - 1], c) == Some(calls@[c].call_id@));
            }
            lemma_open_calls_closed(calls@, all);
        }
        assert(pending_calls(events, all) =~= Seq::<Seq<char>>::empty());
    }
}


/// An answered call is not among the open ones.
proof fn lemma_answered_not_open(calls: Seq<ToolCall>, all: Seq<Event>, id: Seq<char>)
    requires
        has_result(all, id),
    ensures
        !open_calls(calls, all).contains(id),
    decreases calls.len(),
{
    if calls.len() > 0 {
        lemma_answered_not_open(calls.drop_last(), all, id);
        let rest = open_calls(calls.drop_last(), all);
        if !has_result(all, calls.last().call_id@) {
            assert(calls.last().call_id@ != id);
            assert forall|i: int| 0 <= i < rest.len() + 1 implies rest.push(calls.last().call_id@)[i] != id by {
                if i < rest.len() {
                    assert(rest.push(calls.last().call_id@)[i] == rest[i]);
                }
            }
        }
    }
}

/// An answered call is not pending.
proof fn lemma_answered_not_pending(events: Seq<Event>, all: Seq<Event>, id: Seq<char>)
    requires
        has_result(all, id),
    ensures
        !pending_calls(events, all).contains(id),
    decreases events.len(),
{
    if events.len() > 0 {
        lemma_answered_not_pending(events.drop_last(), all, id);
        let head = pending_calls(events.drop_last(), all);
        let tail = match events.last() {
            Event::ToolCall { calls, .. } => open_calls(calls@, all),
            _ => Seq::empty(),
        };
        if let Event::ToolCall { calls, .. } = events.last() {
            lemma_answered_not_open(calls@, all, id);
        }
        assert forall|i: int| 0 <= i < head.len() + tail.len() implies (head + tail)[i] != id by {
            if i < head.len() {
                assert((head + tail)[i] == head[i]);
            } else {
                assert((head + tail)[i] == tail[i - head.len()]);
            }
        }
    }
}

/// A recorded tool call is pending until its result is recorded: after the
/// call event it is among the pending calls, and once an event with its
/// result follows, it no longer is.
pub proof fn law_call_pending_until_answered(before: Seq<Event>, call: Event, k: int, result: Event)
    requires
        call_id_at(call, k) is Some,
        !has_result(before, call_id_at(call, k)->0),
        is_result_for(result, call_id_at(call, k)->0),
    ensures
        pending_calls(before.push(call), before.push(call)).contains(call_id_at(call, k)->0),
        !pending_calls(before.push(call).push(result), before.push(call).push(result)).contains(
            call_id_at(call, k)->0,
        ),
{
    let id = call_id_at(call, k)->0;
    let once = before.push(call);
    assert(!has_result(once, id)) by {
        assert forall|i: int| 0 <= i < once.len() implies !is_result_for(#[trigger] once[i], id) by {
            if i < before.len() {
                assert(once[i] == before[i]);
            }
        }
    }
    lemma_pending_member(once, once, before.len() as int, k, id);
    let twice = once.push(result);
    assert(is_result_for(twice[once.len() as int], id));
    assert(has_result(twice, id));
    lemma_answered_not_pending(twice, twice, id);
}

} // verus!
