//! Hooks of a session's events: which hooks an event fires, how deep hooks
//! may nest, where a hook runs and with which executable, and the session
//! state while a synchronous hook runs.
use crate::cli::{pair_flag, pair_value};
use crate::json::{law_unsigned_decimal_round_trip, parse_u64, split_chars, split_on, unsigned_text};
use crate::model::{Event, Session, Status};
use crate::paths::{is_absolute, join, join_path};
use crate::store::Store;
use crate::text::{chars_of, decimal, decimal_string, opt_chars, string_views, views_of};
use vstd::prelude::*;

verus! {

/// The id of an event.
pub open spec fn id_of(e: Event) -> String {
    match e {
        Event::Message { event_id, .. } => event_id,
        Event::ToolCall { event_id, .. } => event_id,
        Event::ToolResult { event_id, .. } => event_id,
        Event::Reasoning { event_id, .. } => event_id,
        Event::Usage { event_id, .. } => event_id,
        Event::Termination { event_id, .. } => event_id,
        Event::Failure { event_id, .. } => event_id,
    }
}

/// The id of an event.
pub fn id(event: &Event) -> (r: &String)
    ensures
        *r == id_of(*event),
{
    match event {
        Event::Message { event_id, .. } => event_id,
        Event::ToolCall { event_id, .. } => event_id,
        Event::ToolResult { event_id, .. } => event_id,
        Event::Reasoning { event_id, .. } => event_id,
        Event::Usage { event_id, .. } => event_id,
        Event::Termination { event_id, .. } => event_id,
        Event::Failure { event_id, .. } => event_id,
    }
}

/// The kind of an event, as hooks are told it.
pub open spec fn kind_of(e: Event) -> Seq<char> {
    match e {
        Event::Message { .. } => "message"@,
        Event::ToolCall { .. } => "tool_call"@,
        Event::ToolResult { .. } => "tool_result"@,
        Event::Reasoning { .. } => "reasoning"@,
        Event::Usage { .. } => "usage"@,
        Event::Termination { .. } => "termination"@,
        Event::Failure { .. } => "failure"@,
    }
}

/// The kind of an event.
pub fn kind(event: &Event) -> (r: &'static str)
    ensures
        r@ == kind_of(*event),
{
    match event {
        Event::Message { .. } => "message",
        Event::ToolCall { .. } => "tool_call",
        Event::ToolResult { .. } => "tool_result",
        Event::Reasoning { .. } => "reasoning",
        Event::Usage { .. } => "usage",
        Event::Termination { .. } => "termination",
        Event::Failure { .. } => "failure",
    }
}

/// The hooks an event fires, in order: `on-event`, then `on-tool-call`,
/// `on-tool-result` or `on-error` as its kind calls for.
pub open spec fn names_of(e: Event) -> Seq<Seq<char>> {
    match e {
        Event::ToolCall { .. } => seq!["on-event"@, "on-tool-call"@],
        Event::ToolResult { .. } => seq!["on-event"@, "on-tool-result"@],
        Event::Failure { .. } => seq!["on-event"@, "on-error"@],
        Event::Termination { .. } => seq!["on-event"@, "on-error"@],
        _ => seq!["on-event"@],
    }
}

/// Which hooks an event fires: `on-event` first, whatever the event; then
/// `on-tool-call` for a tool call and nothing else, `on-tool-result` for a
/// tool result and nothing else, `on-error` for a failure or a termination
/// and nothing else; no other hook, and no hook twice.
pub proof fn law_hooks_follow_the_event_kind(e: Event)
    ensures
        names_of(e).len() >= 1,
        names_of(e)[0] == "on-event"@,
        names_of(e).contains("on-tool-call"@) <==> e is ToolCall,
        names_of(e).contains("on-tool-result"@) <==> e is ToolResult,
        names_of(e).contains("on-error"@) <==> (e is Failure || e is Termination),
        names_of(e).len() == (if e is ToolCall || e is ToolResult || e is Failure || e is Termination {
            2int
        } else {
            1int
        }),
{
    reveal_strlit("on-event");
    reveal_strlit("on-tool-call");
    reveal_strlit("on-tool-result");
    reveal_strlit("on-error");
    let n = names_of(e);
    assert("on-event"@.len() == 8 && "on-error"@.len() == 8 && "on-tool-call"@.len() == 12 && "on-tool-result"@.len() == 14);
    assert("on-event"@[4] != "on-error"@[4]);
    assert("on-event"@ != "on-tool-call"@ && "on-event"@ != "on-tool-result"@ && "on-event"@ != "on-error"@);
    assert("on-tool-call"@[3] != "on-tool-result"@[3] || "on-tool-call"@[8] != "on-tool-result"@[8]);
    assert("on-tool-call"@ != "on-tool-result"@);
    assert("on-tool-call"@ != "on-error"@ && "on-tool-result"@ != "on-error"@);
    if n.contains("on-tool-call"@) {
        let k = choose|k: int| 0 <= k < n.len() && n[k] == "on-tool-call"@;
        assert(n[k] == "on-tool-call"@);
    }
    if n.contains("on-tool-result"@) {
        let k = choose|k: int| 0 <= k < n.len() && n[k] == "on-tool-result"@;
        assert(n[k] == "on-tool-result"@);
    }
    if n.contains("on-error"@) {
        let k = choose|k: int| 0 <= k < n.len() && n[k] == "on-error"@;
        assert(n[k] == "on-error"@);
    }
    if n.len() == 2 {
        assert(n[1] == n[1]);
    }
}

/// The hooks an event fires.
pub fn hook_names(event: &Event) -> (r: Vec<String>)
    ensures
        string_views(r@) == names_of(*event),
        r@.len() >= 1 && r@[0]@ == "on-event"@,
        string_views(r@).contains("on-tool-call"@) <==> *event is ToolCall,
        string_views(r@).contains("on-tool-result"@) <==> *event is ToolResult,
        string_views(r@).contains("on-error"@) <==> (*event is Failure || *event is Termination),
        r@.len() == (if *event is ToolCall || *event is ToolResult || *event is Failure || *event is Termination {
            2int
        } else {
            1int
        }),
{
    let mut r: Vec<String> = Vec::new();
    r.push("on-event".to_owned());
    match event {
        Event::ToolCall { .. } => r.push("on-tool-call".to_owned()),
        Event::ToolResult { .. } => r.push("on-tool-result".to_owned()),
        Event::Failure { .. } => r.push("on-error".to_owned()),
        Event::Termination { .. } => r.push("on-error".to_owned()),
        _ => {},
    }
    assert(string_views(r@) =~= names_of(*event));
    proof {
        law_hooks_follow_the_event_kind(*event);
        assert(string_views(r@)[0] == r@[0]@);
    }
    r
}

/// How deep hooks may nest before an appended event fires none.
pub open spec fn max_depth() -> u32 {
    8
}

/// The hooks an appended event fires: none once hooks nest `max_depth()`
/// deep; else `on-init` for a session's first event, then the event's own.
pub open spec fn append_names(first: bool, depth: u32, e: Event) -> Seq<Seq<char>> {
    if depth >= max_depth() {
        Seq::empty()
    } else if first {
        seq!["on-init"@] + names_of(e)
    } else {
        names_of(e)
    }
}

/// The hooks to dispatch after appending `event`.
pub fn append_hooks(first: bool, depth: u32, event: &Event) -> (r: Vec<String>)
    ensures
        string_views(r@) == append_names(first, depth, *event),
{
    if depth >= 8 {
        let r: Vec<String> = Vec::new();
        assert(string_views(r@) =~= Seq::<Seq<char>>::empty());
        return r;
    }
    let names = hook_names(event);
    if first {
        let mut r: Vec<String> = Vec::new();
        r.push("on-init".to_owned());
        let mut i: usize = 0;
        while i < names.len()
            invariant
                i <= names@.len(),
                string_views(names@) == names_of(*event),
                string_views(r@) == seq!["on-init"@] + string_views(names@).take(i as int),
            decreases names@.len() - i,
        {
            let ghost before = r@;
            r.push(names[i].clone());
            assert(string_views(r@) =~= string_views(before).push(names@[i as int]@));
            assert(string_views(names@).take(i + 1) =~= string_views(names@).take(i as int).push(names@[i as int]@));
            i = i + 1;
        }
        assert(string_views(names@).take(i as int) =~= string_views(names@));
        r
    } else {
        names
    }
}

/// The hooks dispatched for the events of a log from index `from` on: each
/// event's hooks, event by event, with the event's index.
pub open spec fn dispatch_plan_of(events: Seq<Event>, from: int) -> Seq<(int, Seq<char>)>
    decreases events.len(),
{
    if events.len() == 0 || events.len() <= from {
        Seq::empty()
    } else {
        dispatch_plan_of(events.drop_last(), from) + tagged(names_of(events.last()), events.len() - 1)
    }
}

/// Each name of `names` with the index `i`.
pub open spec fn tagged(names: Seq<Seq<char>>, i: int) -> Seq<(int, Seq<char>)> {
    names.map_values(|n: Seq<char>| (i, n))
}

/// A dispatch plan in mathematical form.
pub open spec fn plan_view(r: Seq<(usize, String)>) -> Seq<(int, Seq<char>)> {
    r.map_values(|p: (usize, String)| (p.0 as int, p.1@))
}

/// The hooks to dispatch, with their events' indices, for the events from
/// index `from` on.
pub fn dispatch_events(events: &Vec<Event>, from: usize) -> (r: Vec<(usize, String)>)
    ensures
        plan_view(r@) == dispatch_plan_of(events@, from as int),
{
    let mut r: Vec<(usize, String)> = Vec::new();
    let mut i: usize = from;
    proof {
        if events@.len() <= from {
            assert(events@.take(events@.len() as int) =~= events@);
        }
        lemma_plan_prefix(events@, from as int);
    }
    if i > events.len() {
        assert(dispatch_plan_of(events@, from as int) =~= Seq::<(int, Seq<char>)>::empty());
        assert(plan_view(r@) =~= Seq::<(int, Seq<char>)>::empty());
        return r;
    }
    assert(plan_view(r@) =~= Seq::<(int, Seq<char>)>::empty());
    assert(events@.take(i as int).len() <= from);
    while i < events.len()
        invariant
            from <= i <= events@.len(),
            plan_view(r@) == dispatch_plan_of(events@.take(i as int), from as int),
        decreases events@.len() - i,
    {
        let names = hook_names(&events[i]);
        let ghost before = r@;
        let mut k: usize = 0;
        while k < names.len()
            invariant
                k <= names@.len(),
                i < events@.len(),
                string_views(names@) == names_of(events@[i as int]),
                plan_view(r@) == plan_view(before) + tagged(string_views(names@).take(k as int), i as int),
            decreases names@.len() - k,
        {
            let ghost mid = r@;
            let name = names[k].clone();
            r.push((i, name));
            assert(string_views(names@).take(k + 1) =~= string_views(names@).take(k as int).push(names@[k as int]@));
            assert(plan_view(r@) =~= plan_view(mid).push((i as int, names@[k as int]@)));
            assert(tagged(string_views(names@).take(k + 1), i as int) =~= tagged(string_views(names@).take(k as int), i as int).push((i as int, names@[k as int]@)));
            assert(plan_view(r@) =~= plan_view(before) + tagged(string_views(names@).take(k + 1), i as int));
            k = k + 1;
        }
        assert(string_views(names@).take(k as int) =~= string_views(names@));
        assert(events@.take(i + 1).drop_last() =~= events@.take(i as int));
        assert(events@.take(i + 1).len() == i + 1);
        assert(events@.take(i + 1).last() == events@[i as int]);
        i = i + 1;
    }
    assert(events@.take(i as int) =~= events@);
    r
}

/// A log of no more events than `from` dispatches nothing.
proof fn lemma_plan_prefix(events: Seq<Event>, from: int)
    ensures
        events.len() <= from ==> dispatch_plan_of(events, from) == Seq::<(int, Seq<char>)>::empty(),
{
}

/// How a hook runs: waited for, or launched on its own.
#[derive(Debug, Clone, Copy, PartialEq, Eq, Structural)]
pub enum HookMode {
    Sync,
    Async,
}

/// The name of a hook mode.
pub fn format_mode(mode: HookMode) -> (r: &'static str)
    ensures
        r@ == (match mode {
            HookMode::Sync => "sync"@,
            HookMode::Async => "async"@,
        }),
{
    match mode {
        HookMode::Sync => "sync",
        HookMode::Async => "async",
    }
}

/// A hook: the script it runs, how, and for how long at most.
#[derive(Debug, Clone, PartialEq, Eq)]
pub struct HookDefinition {
    pub script: String,
    pub mode: HookMode,
    pub timeout_seconds: Option<u64>,
}

/// How long a hook may run: its own timeout, else the policy's, else 30
/// seconds.
pub fn hook_timeout(hook: &HookDefinition, policy_timeout: Option<u64>) -> (r: u64)
    ensures
        r == (match hook.timeout_seconds {
            Some(t) => t,
            None => match policy_timeout {
                Some(t) => t,
                None => 30,
            },
        }),
{
    match hook.timeout_seconds {
        Some(t) => t,
        None => match policy_timeout {
            Some(t) => t,
            None => 30,
        },
    }
}

/// Whether a piece of a path is a name: not empty, not `.`.
pub open spec fn is_name_piece(p: Seq<char>) -> bool {
    p.len() > 0 && p != seq!['.']
}

/// The number of name pieces of `pieces`.
pub open spec fn name_pieces(pieces: Seq<Seq<char>>) -> nat
    decreases pieces.len(),
{
    if pieces.len() == 0 {
        0
    } else {
        name_pieces(pieces.drop_last()) + if is_name_piece(pieces.last()) {
            1nat
        } else {
            0nat
        }
    }
}

/// The number of components `Path::components` yields for `p` on Unix: the
/// root of an absolute path, a leading `.` of a relative one, and each
/// piece between separators that is neither empty nor `.`.
pub open spec fn component_count(p: Seq<char>) -> nat {
    let pieces = split_on(p, '/');
    (if is_absolute(p) {
        1nat
    } else if pieces.len() > 0 && pieces[0] == seq!['.'] {
        1nat
    } else {
        0nat
    }) + name_pieces(pieces)
}

/// Whether `p` has more than one component.
fn several_components(p: &str) -> (r: bool)
    ensures
        r == (component_count(p@) > 1),
{
    let c = chars_of(p);
    let pieces = split_chars(&c, '/');
    let ghost all = views_of(pieces@);
    let mut n: usize = 0;
    let mut i: usize = 0;
    assert(all.take(0) =~= Seq::<Seq<char>>::empty());
    while i < pieces.len()
        invariant
            i <= pieces@.len(),
            all == views_of(pieces@),
            n == name_pieces(all.take(i as int)),
            n <= i,
        decreases pieces@.len() - i,
    {
        assert(all.take(i + 1).drop_last() =~= all.take(i as int));
        assert(all.take(i + 1).last() == pieces@[i as int]@);
        let piece = &pieces[i];
        let dot = piece.len() == 1 && piece[0] == '.';
        proof {
            if dot {
                assert(piece@ =~= seq!['.']);
            }
            if piece@ == seq!['.'] {
                assert(piece@[0] == '.');
            }
        }
        if piece.len() > 0 && !dot {
            n = n + 1;
        }
        i = i + 1;
    }
    assert(all.take(i as int) =~= all);
    let lead = if c.len() > 0 && c[0] == '/' {
        1
    } else if pieces.len() > 0 && pieces[0].len() == 1 && pieces[0][0] == '.' {
        proof {
            assert(all[0] == pieces@[0]@);
            assert(pieces@[0]@ =~= seq!['.']);
        }
        1
    } else {
        proof {
            if pieces@.len() > 0 && all[0] == seq!['.'] {
                assert(all[0] == pieces@[0]@);
                assert(pieces@[0]@[0] == '.');
            }
        }
        0
    };
    (lead == 1 && n >= 1) || n >= 2
}

/// The executable a hook script names: a script given as a path (absolute,
/// or of more than one component) or found executable under the root is
/// taken under the root, resolved where the filesystem resolves it; a bare
/// name is left to the search path.
pub open spec fn executable_of(root: Seq<char>, script: Seq<char>, local_executable: bool, canonical: Option<String>) -> Seq<char> {
    if is_absolute(script) || component_count(script) > 1 || local_executable {
        match canonical {
            Some(c) => c@,
            None => join_path(root, script),
        }
    } else {
        script
    }
}

/// The executable of a hook script: `local_executable` says whether the
/// script under the root is an executable file, and `canonical` is what the
/// filesystem resolves that path to, if it does.
pub fn resolve_executable(root: &str, script: &str, local_executable: bool, canonical: &Option<String>) -> (r: String)
    ensures
        r@ == executable_of(root@, script@, local_executable, *canonical),
{
    let c = chars_of(script);
    let absolute = c.len() > 0 && c[0] == '/';
    if absolute || several_components(script) || local_executable {
        match canonical {
            Some(p) => p.clone(),
            None => join(root, script),
        }
    } else {
        script.to_owned()
    }
}

/// The directory a hook runs in: the session's working directory, taken
/// under the root where it is relative, or the root itself.
pub open spec fn working_dir_of(root: Seq<char>, value: Option<Seq<char>>) -> Seq<char> {
    match value {
        None => root,
        Some(v) => if is_absolute(v) {
            v
        } else {
            join_path(root, v)
        },
    }
}

/// The directory a hook runs in.
pub fn working_dir(root: &str, value: Option<&str>) -> (r: String)
    ensures
        r@ == working_dir_of(
            root@,
            match value {
                Some(v) => Some(v@),
                None => None,
            },
        ),
{
    match value {
        None => root.to_owned(),
        Some(v) => {
            let c = chars_of(v);
            if c.len() > 0 && c[0] == '/' {
                v.to_owned()
            } else {
                join(root, v)
            }
        },
    }
}

/// The hook nesting depth a depth file holds: its number, or 0 where it is
/// missing or not a number.
pub open spec fn depth_in(text: Option<Seq<char>>) -> nat {
    match text {
        Some(t) => match unsigned_text(t) {
            Some(n) => if n <= u32::MAX {
                n
            } else {
                0
            },
            None => 0,
        },
        None => 0,
    }
}

/// Reads a number of at most `u32::MAX` from text.
fn parse_u32(t: &str) -> (r: Option<u32>)
    ensures
        match unsigned_text(t@) {
            Some(n) => if n <= u32::MAX {
                r == Some(n as u32)
            } else {
                r is None
            },
            None => r is None,
        },
{
    match parse_u64(&chars_of(t)) {
        Some(v) => if v <= u32::MAX as u64 {
            Some(v as u32)
        } else {
            None
        },
        None => None,
    }
}

/// The hook nesting depth of a session, from its depth file's text.
pub fn depth(text: &Option<String>) -> (d: u32)
    ensures
        d == depth_in(opt_chars(*text)),
{
    match text {
        Some(t) => match parse_u32(t.as_str()) {
            Some(v) => v,
            None => 0,
        },
        None => 0,
    }
}

/// The text a hook writes to the depth file on entering: one more than the
/// depth it found, in decimal.
pub fn enter_depth(text: &Option<String>) -> (r: String)
    requires
        depth_in(opt_chars(*text)) < u32::MAX,
    ensures
        r@ == decimal(depth_in(opt_chars(*text)) + 1),
{
    decimal_string((depth(text) + 1) as u64)
}

/// The depth a hook finds on exit: the file's number, with a missing or
/// unreadable depth counting as 1.
pub open spec fn exit_found(text: Option<Seq<char>>) -> nat {
    match text {
        Some(t) => match unsigned_text(t) {
            Some(n) => if n <= u32::MAX {
                n
            } else {
                1
            },
            None => 1,
        },
        None => 1,
    }
}

/// What a hook leaves in the depth file on exit: one less, or no file where
/// it was the outermost.
pub open spec fn exit_left(text: Option<Seq<char>>) -> Option<nat> {
    if exit_found(text) <= 1 {
        None
    } else {
        Some((exit_found(text) - 1) as nat)
    }
}

/// The text a hook leaves in the depth file on exit, or `None` where the
/// file is removed.
pub fn exit_depth(text: &Option<String>) -> (r: Option<String>)
    ensures
        match exit_left(opt_chars(*text)) {
            Some(n) => r matches Some(t) && t@ == decimal(n),
            None => r is None,
        },
{
    let d = match text {
        Some(t) => match parse_u32(t.as_str()) {
            Some(v) => v,
            None => 1,
        },
        None => 1,
    };
    if d <= 1 {
        None
    } else {
        Some(decimal_string((d - 1) as u64))
    }
}

/// A hook's exit restores the nesting depth its entry found: the entry
/// writes one more, and what the exit leaves (a smaller number, or no file,
/// which reads as no nesting) reads as the depth before.
pub proof fn law_hook_depth_round_trip(before: Option<Seq<char>>)
    requires
        depth_in(before) < u32::MAX,
    ensures
        ({
            let written = decimal(depth_in(before) + 1);
            let left = match exit_left(Some(written)) {
                Some(n) => Some(decimal(n)),
                None => None,
            };
            depth_in(left) == depth_in(before)
        }),
{
    let d = depth_in(before);
    law_unsigned_decimal_round_trip(d + 1);
    if d > 0 {
        law_unsigned_decimal_round_trip(d);
    }
}

/// The event a hook run dispatches for: the session's last event, or the
/// refusal of a session without events.
pub fn run(session: &Session) -> (r: Result<&Event, String>)
    ensures
        session.events@.len() > 0 ==> r == Ok::<&Event, String>(&session.events@.last()),
        session.events@.len() == 0 ==> (r matches Err(m) && m@ == "session has no events"@),
{
    if session.events.len() == 0 {
        Err("session has no events".to_owned())
    } else {
        Ok(&session.events[session.events.len() - 1])
    }
}

/// A synchronous hook marks its session as running a hook, where the
/// session has metadata.
pub fn enters_hook_state(mode: HookMode, metadata_exists: bool) -> (r: bool)
    ensures
        r == (mode == HookMode::Sync && metadata_exists),
{
    mode == HookMode::Sync && metadata_exists
}

/// Marks a session as running a hook; returns the status to restore.
pub fn enter_hook_state(session: &mut Session) -> (previous: Status)
    ensures
        previous == old(session).metadata.status,
        final(session).metadata == (crate::model::Metadata { status: Status::HookRunning, ..old(session).metadata }),
        final(session).events == old(session).events,
{
    let previous = session.metadata.status;
    session.metadata.status = Status::HookRunning;
    previous
}

/// Restores a session's status after a hook, unless something else changed
/// it meanwhile. Returns whether it changed.
pub fn leave_hook_state(session: &mut Session, previous: Status) -> (changed: bool)
    ensures
        changed == (old(session).metadata.status == Status::HookRunning),
        changed ==> final(session).metadata == (crate::model::Metadata { status: previous, ..old(session).metadata }),
        !changed ==> *final(session) == *old(session),
        final(session).events == old(session).events,
{
    if session.metadata.status == Status::HookRunning {
        session.metadata.status = previous;
        true
    } else {
        false
    }
}

/// The metadata of a session marked as running a hook.
pub open spec fn entered(m: crate::model::Metadata) -> crate::model::Metadata {
    crate::model::Metadata { status: Status::HookRunning, ..m }
}

/// The metadata of a session whose hook ended, `previous` restored.
pub open spec fn restored(m: crate::model::Metadata, previous: Status) -> crate::model::Metadata {
    if m.status == Status::HookRunning {
        crate::model::Metadata { status: previous, ..m }
    } else {
        m
    }
}

/// Leaving the hook state after entering it gives back the session as it
/// was, whatever its status had been.
pub proof fn law_hook_state_round_trip(m: crate::model::Metadata)
    ensures
        restored(entered(m), m.status) == m,
{
}

/// A session held in the hook state while a synchronous hook runs: its
/// store, its id, the status to restore and the token file marking the run.
#[derive(Debug)]
pub struct HookState {
    pub store: Store,
    pub id: String,
    pub previous: Status,
    pub token_path: String,
}

impl HookState {
    /// Enters the hook state for session `id` of `store`: `session` is
    /// marked as running a hook, its status kept to restore, and the token
    /// file is `.hook-token` in the session's directory.
    pub fn enter(store: Store, id: &str, session: &mut Session) -> (h: HookState)
        ensures
            h.store == store,
            h.id@ == id@,
            h.previous == old(session).metadata.status,
            h.token_path@ == join_path(store.dir_of(id@), ".hook-token"@),
            final(session).metadata == entered(old(session).metadata),
            final(session).events == old(session).events,
    {
        let previous = enter_hook_state(session);
        let token_path = join(store.path(id).as_str(), ".hook-token");
        HookState { store, id: id.to_owned(), previous, token_path }
    }

    /// Leaves the hook state: the kept status comes back unless something
    /// else changed the session's status meanwhile. Returns whether the
    /// session changed and must be saved.
    pub fn leave(&self, session: &mut Session) -> (changed: bool)
        ensures
            changed == (old(session).metadata.status == Status::HookRunning),
            final(session).metadata == restored(old(session).metadata, self.previous),
            final(session).events == old(session).events,
    {
        leave_hook_state(session, self.previous)
    }
}

/// What a `__hook-run` command is given.
#[derive(Debug, PartialEq, Eq)]
pub struct MonitorArgs {
    pub id: String,
    pub event: String,
    pub script: String,
    pub input: String,
    pub timeout: Option<u64>,
}

/// The arguments of a `__hook-run` command: `--id`, `--event`, `--script`
/// and `--input` are required, in that order of checking; `--timeout` is
/// kept where it is a number.
pub fn monitor_args(args: &[String]) -> (r: Result<MonitorArgs, String>)
    ensures
        match r {
            Ok(m) => pair_value(string_views(args@), "--id"@) == Some(m.id@) && pair_value(
                string_views(args@),
                "--event"@,
            ) == Some(m.event@) && pair_value(string_views(args@), "--script"@) == Some(m.script@) && pair_value(
                string_views(args@),
                "--input"@,
            ) == Some(m.input@) && m.timeout == (match pair_value(string_views(args@), "--timeout"@) {
                Some(t) => match unsigned_text(t) {
                    Some(n) => if n <= u64::MAX {
                        Some(n as u64)
                    } else {
                        None
                    },
                    None => None,
                },
                None => None,
            }),
            Err(e) => if pair_value(string_views(args@), "--id"@) is None {
                e@ == "__hook-run requires --id"@
            } else if pair_value(string_views(args@), "--event"@) is None {
                e@ == "__hook-run requires --event"@
            } else if pair_value(string_views(args@), "--script"@) is None {
                e@ == "__hook-run requires --script"@
            } else {
                pair_value(string_views(args@), "--input"@) is None && e@ == "__hook-run requires --input"@
            },
        },
{
    let id = match pair_flag(args, "--id") {
        Some(v) => v,
        None => {
            return Err("__hook-run requires --id".to_owned());
        },
    };
    let event = match pair_flag(args, "--event") {
        Some(v) => v,
        None => {
            return Err("__hook-run requires --event".to_owned());
        },
    };
    let script = match pair_flag(args, "--script") {
        Some(v) => v,
        None => {
            return Err("__hook-run requires --script".to_owned());
        },
    };
    let input = match pair_flag(args, "--input") {
        Some(v) => v,
        None => {
            return Err("__hook-run requires --input".to_owned());
        },
    };
    let timeout = match pair_flag(args, "--timeout") {
        Some(t) => parse_u64(&chars_of(t.as_str())),
        None => None,
    };
    Ok(MonitorArgs { id, event, script, input, timeout })
}

} // verus!
