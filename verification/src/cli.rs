//! Command-line arguments of the `orchid` program: flag values, positional
//! arguments, the configuration root and the command to run.
use crate::text::{chars_of, concat, has_prefix, opt_chars, starts_with, str_eq, string_views, suffix_string};
use crate::json::{json_members_view, lemma_members_view, Json, JsonV};
use crate::model::{
    all_answered, call_id_at, has_result, is_result_for, lemma_has_result_grows, lemma_pending_empty,
    lemma_pending_member, pending_calls, Event, Metadata, Session, Stamp, Status, TokenUsage,
};
use crate::provider::dispatch::append_result;
use vstd::prelude::*;

verus! {

/// The value of flag `name` written as two arguments: the argument after
/// the first `name` that has one after it.
pub open spec fn pair_value(args: Seq<Seq<char>>, name: Seq<char>) -> Option<Seq<char>>
    decreases args.len(),
{
    if args.len() < 2 {
        None
    } else if args[0] == name {
        Some(args[1])
    } else {
        pair_value(args.skip(1), name)
    }
}

/// The value of flag `name` written as `name=value`: what follows `=` in
/// the first argument that starts so.
pub open spec fn assigned_value(args: Seq<Seq<char>>, name: Seq<char>) -> Option<Seq<char>>
    decreases args.len(),
{
    if args.len() == 0 {
        None
    } else if has_prefix(args[0], name + "="@) {
        Some(args[0].skip(name.len() + 1int))
    } else {
        assigned_value(args.skip(1), name)
    }
}

/// The value of flag `name`: the two-argument form first, then `name=value`.
pub open spec fn flag_value(args: Seq<Seq<char>>, name: Seq<char>) -> Option<Seq<char>> {
    match pair_value(args, name) {
        Some(v) => Some(v),
        None => assigned_value(args, name),
    }
}

/// The value of flag `name` written as two arguments, if it is given so.
pub fn pair_flag(args: &[String], name: &str) -> (r: Option<String>)
    ensures
        opt_chars(r) == pair_value(string_views(args@), name@),
{
    let ghost views = string_views(args@);
    let mut i: usize = 0;
    assert(views.skip(0) =~= views);
    while args.len() > 1 && i < args.len() - 1
        invariant
            i <= args@.len(),
            views == string_views(args@),
            pair_value(views, name@) == pair_value(views.skip(i as int), name@),
        decreases args@.len() - i,
    {
        proof {
            assert(views.skip(i as int).skip(1) =~= views.skip(i + 1));
            assert(views.skip(i as int)[0] == args@[i as int]@);
            assert(views.skip(i as int)[1] == args@[i + 1]@);
        }
        if str_eq(args[i].as_str(), name) {
            return Some(args[i + 1].clone());
        }
        i = i + 1;
    }
    None
}

/// The value of flag `name` written as `name=value`, if it is given so.
pub fn assigned_flag(args: &[String], name: &str) -> (r: Option<String>)
    ensures
        opt_chars(r) == assigned_value(string_views(args@), name@),
{
    let ghost views = string_views(args@);
    proof {
        reveal_strlit("=");
    }
    let prefix = concat(name, "=");
    let p = chars_of(prefix.as_str());
    let mut j: usize = 0;
    assert(views.skip(0) =~= views);
    while j < args.len()
        invariant
            j <= args@.len(),
            views == string_views(args@),
            p@ == name@ + "="@,
            p@.len() == name@.len() + 1,
            assigned_value(views, name@) == assigned_value(views.skip(j as int), name@),
        decreases args@.len() - j,
    {
        proof {
            assert(views.skip(j as int).skip(1) =~= views.skip(j + 1));
            assert(views.skip(j as int)[0] == args@[j as int]@);
        }
        let c = chars_of(args[j].as_str());
        if starts_with(&c, &p) {
            return Some(suffix_string(&c, p.len()));
        }
        j = j + 1;
    }
    None
}

/// The value of flag `name` among `args`, if it is given.
pub fn value(args: &[String], name: &str) -> (r: Option<String>)
    ensures
        opt_chars(r) == flag_value(string_views(args@), name@),
{
    match pair_flag(args, name) {
        Some(v) => Some(v),
        None => assigned_flag(args, name),
    }
}

/// Flags that take the next argument as their value.
pub open spec fn is_value_flag(a: Seq<char>) -> bool {
    ||| a == "--id"@
    ||| a == "--label"@
    ||| a == "--working-dir"@
    ||| a == "--agent"@
    ||| a == "--timeout"@
    ||| a == "--interval"@
}

/// The positional arguments: neither flags nor the values of value flags.
pub open spec fn positional_args(args: Seq<Seq<char>>) -> Seq<Seq<char>>
    decreases args.len(),
{
    if args.len() == 0 {
        seq![]
    } else if is_value_flag(args[0]) {
        if args.len() < 2 {
            seq![]
        } else {
            positional_args(args.skip(2))
        }
    } else if has_prefix(args[0], "-"@) {
        positional_args(args.skip(1))
    } else {
        seq![args[0]] + positional_args(args.skip(1))
    }
}

/// Whether `a` is a flag that takes a value.
fn value_flag(a: &str) -> (r: bool)
    ensures
        r == is_value_flag(a@),
{
    str_eq(a, "--id") || str_eq(a, "--label") || str_eq(a, "--working-dir") || str_eq(a, "--agent") || str_eq(
        a,
        "--timeout",
    ) || str_eq(a, "--interval")
}

/// The positional arguments among `args`, in order.
pub fn positional(args: &[String]) -> (r: Vec<String>)
    ensures
        string_views(r@) == positional_args(string_views(args@)),
{
    let ghost views = string_views(args@);
    let dash = chars_of("-");
    let mut result: Vec<String> = Vec::new();
    let mut i: usize = 0;
    assert(views.skip(0) =~= views);
    while i < args.len()
        invariant
            i <= args@.len(),
            views == string_views(args@),
            dash@ == "-"@,
            string_views(result@) + positional_args(views.skip(i as int)) == positional_args(views),
        decreases args@.len() - i,
    {
        let ghost rest = views.skip(i as int);
        proof {
            assert(rest[0] == args@[i as int]@);
            assert(rest.skip(1) =~= views.skip(i + 1));
        }
        let arg = args[i].as_str();
        if value_flag(arg) {
            if args.len() - i >= 2 {
                assert(rest.skip(2) =~= views.skip(i + 2));
                i = i + 2;
            } else {
                assert(views.skip(args@.len() as int) =~= Seq::<Seq<char>>::empty());
                i = args.len();
            }
        } else if starts_with(&chars_of(arg), &dash) {
            i = i + 1;
        } else {
            let ghost before = result@;
            result.push(args[i].clone());
            assert(string_views(result@) =~= string_views(before).push(args@[i as int]@));
            assert(string_views(result@) + positional_args(views.skip(i + 1)) =~= string_views(before) + (seq![
                rest[0],
            ] + positional_args(rest.skip(1))));
            i = i + 1;
        }
    }
    assert(views.skip(i as int) =~= Seq::<Seq<char>>::empty());
    assert(string_views(result@) + Seq::<Seq<char>>::empty() =~= string_views(result@));
    result
}

/// The index of the first `--config` among `args`, or -1.
pub open spec fn config_index(args: Seq<Seq<char>>) -> int
    decreases args.len(),
{
    if args.len() == 0 {
        -1
    } else if args[0] == "--config"@ {
        0
    } else {
        let r = config_index(args.skip(1));
        if r < 0 {
            -1
        } else {
            r + 1
        }
    }
}

/// The configuration root chosen by `args`: the value of the first
/// `--config`, where it has one, else `default`.
pub open spec fn config_root(args: Seq<Seq<char>>, default: Seq<char>) -> Seq<char> {
    let k = config_index(args);
    if 0 <= k && k + 1 < args.len() {
        args[k + 1]
    } else {
        default
    }
}

/// The arguments without the `--config` pair that chose the root.
pub open spec fn without_config(args: Seq<Seq<char>>) -> Seq<Seq<char>> {
    let k = config_index(args);
    if 0 <= k && k + 1 < args.len() {
        args.remove(k + 1).remove(k)
    } else {
        args
    }
}

/// Offsets an index found in a suffix by the suffix's start.
pub open spec fn shifted(r: int, by: int) -> int {
    if r < 0 {
        -1
    } else {
        r + by
    }
}

/// Splits `--config DIR` off `args`: the chosen root and the other
/// arguments.
pub fn root_arg(args: Vec<String>, default_root: String) -> (r: (String, Vec<String>))
    ensures
        r.0@ == config_root(string_views(args@), default_root@),
        string_views(r.1@) == without_config(string_views(args@)),
{
    let ghost views = string_views(args@);
    let mut args = args;
    let mut i: usize = 0;
    let mut found = false;
    assert(views.skip(0) =~= views);
    while i < args.len()
        invariant_except_break
            !found,
        invariant
            i <= args@.len(),
            views == string_views(args@),
            found ==> i < args@.len() && config_index(views) == i,
            !found ==> config_index(views) == shifted(config_index(views.skip(i as int)), i as int),
        ensures
            found ==> i < args@.len() && config_index(views) == i,
            !found ==> config_index(views) == -1,
        decreases args@.len() - i,
    {
        proof {
            assert(views.skip(i as int).skip(1) =~= views.skip(i + 1));
            assert(views.skip(i as int)[0] == args@[i as int]@);
        }
        if str_eq(args[i].as_str(), "--config") {
            found = true;
            break;
        }
        i = i + 1;
    }
    if found && i < args.len() - 1 {
        let root = args.remove(i + 1);
        let ghost mid = args@;
        args.remove(i);
        proof {
            assert(string_views(mid) =~= views.remove(i + 1));
            assert(string_views(args@) =~= string_views(mid).remove(i as int));
        }
        (root, args)
    } else {
        (default_root, args)
    }
}

/// The command names the program knows.
pub open spec fn is_command(name: Seq<char>) -> bool {
    ||| name == "help"@
    ||| name == "create"@
    ||| name == "list"@
    ||| name == "get"@
    ||| name == "set"@
    ||| name == "delete"@
    ||| name == "send"@
    ||| name == "tool-call"@
    ||| name == "tool"@
    ||| name == "auth"@
    ||| name == "__run"@
    ||| name == "__hook-run"@
    ||| name == "await"@
    ||| name == "stop"@
    ||| name == "agent"@
    ||| name == "session"@
}

/// The command a first argument names: `help` for none, `-h` or `--help`;
/// `stop` for `kill`; else the argument itself.
pub open spec fn command_for(first: Option<Seq<char>>) -> Seq<char> {
    match first {
        None => "help"@,
        Some(a) => if a == "-h"@ || a == "--help"@ {
            "help"@
        } else if a == "kill"@ {
            "stop"@
        } else {
            a
        },
    }
}

/// The command to run for a first argument, or the message of an unknown
/// command.
pub fn resolve_command(first: Option<&str>) -> (r: Result<String, String>)
    ensures
        match r {
            Ok(name) => is_command(command_for(opt_str(first))) && name@ == command_for(opt_str(first)),
            Err(m) => !is_command(command_for(opt_str(first))) && m@ == "unknown command: "@ + command_for(
                opt_str(first),
            ),
        },
{
    let name: &str = match first {
        None => "help",
        Some(a) => if str_eq(a, "-h") || str_eq(a, "--help") {
            "help"
        } else if str_eq(a, "kill") {
            "stop"
        } else {
            a
        },
    };
    let known = str_eq(name, "help") || str_eq(name, "create") || str_eq(name, "list") || str_eq(name, "get")
        || str_eq(name, "set") || str_eq(name, "delete") || str_eq(name, "send") || str_eq(name, "tool-call")
        || str_eq(name, "tool") || str_eq(name, "auth") || str_eq(name, "__run") || str_eq(name, "__hook-run")
        || str_eq(name, "await") || str_eq(name, "stop") || str_eq(name, "agent") || str_eq(name, "session");
    if known {
        Ok(name.to_owned())
    } else {
        Err(concat("unknown command: ", name))
    }
}

/// The characters of an optional string slice.
pub open spec fn opt_str(o: Option<&str>) -> Option<Seq<char>> {
    match o {
        Some(s) => Some(s@),
        None => None,
    }
}

/// The usage text of the program.
pub open spec fn help_text() -> Seq<char> {
    "orchid <create|list|get|set|delete|send|tool-call|agent|session>\n  --config DIR  configuration/session root"@
}

/// The usage text.
pub fn help() -> (s: String)
    ensures
        s@ == help_text(),
{
    "orchid <create|list|get|set|delete|send|tool-call|agent|session>\n  --config DIR  configuration/session root".to_owned()
}

/// The content recorded for a tool call cut short by cancellation.
pub open spec fn cancelled_content() -> JsonV {
    JsonV::Object(
        seq![
            ("status"@, JsonV::Str("terminated"@)),
            ("error"@, JsonV::Str("tool call terminated because the session was cancelled"@)),
        ],
    )
}

/// The content recorded for a tool call cut short by cancellation.
fn cancelled_result() -> (r: Json)
    ensures
        r@ == cancelled_content(),
{
    let mut members: Vec<(String, Json)> = Vec::new();
    members.push(("status".to_owned(), Json::Str("terminated".to_owned())));
    members.push(
        ("error".to_owned(), Json::Str("tool call terminated because the session was cancelled".to_owned())),
    );
    proof {
        lemma_members_view(members@);
        assert(json_members_view(members@) =~= seq![
            ("status"@, JsonV::Str("terminated"@)),
            ("error"@, JsonV::Str("tool call terminated because the session was cancelled"@)),
        ]);
    }
    Json::Object(members)
}

/// The reason recorded when a user stops a session.
pub open spec fn cancel_reason() -> Seq<char> {
    "cancelled by user"@
}

/// Stops a session whose worker has been ended: every pending tool call
/// gets a result saying it was terminated, in the order the calls were
/// requested, then a termination event records the cancellation; the
/// session becomes idle, without a worker, cancelled by the user. Nothing
/// is left pending. `stamps` holds one id and time for each new event, in
/// the order they are written.
pub fn stop_session(session: &mut Session, stamps: Vec<Stamp>)
    requires
        stamps@.len() == pending_calls(old(session).events@, old(session).events@).len() + 1,
    ensures
        pending_calls(final(session).events@, final(session).events@) == Seq::<Seq<char>>::empty(),
        final(session).events@.len() == old(session).events@.len() + pending_calls(
            old(session).events@,
            old(session).events@,
        ).len() + 1,
        final(session).events@.take(old(session).events@.len() as int) == old(session).events@,
        forall|k: int|
            0 <= k < pending_calls(old(session).events@, old(session).events@).len() ==> (
            #[trigger] final(session).events@[old(session).events@.len() + k] matches Event::ToolResult {
                call_id,
                content,
                ..
            } && call_id@ == pending_calls(old(session).events@, old(session).events@)[k] && content@
                == cancelled_content()),
        forall|k: int|
            0 <= k < pending_calls(old(session).events@, old(session).events@).len() ==> (
            #[trigger] final(session).events@[old(session).events@.len() + k] matches Event::ToolResult {
                event_id,
                timestamp,
                ..
            } && event_id == stamps@[k].event_id && timestamp == stamps@[k].timestamp),
        final(session).events@.last() matches Event::Termination { event_id, timestamp, reason, .. } && reason@
            == cancel_reason() && event_id == stamps@.last().event_id && timestamp == stamps@.last().timestamp,
        final(session).metadata.updated_at == stamps@.last().timestamp,
        final(session).metadata.status == Status::Idle,
        final(session).metadata.pid is None,
        opt_chars(final(session).metadata.termination_reason) == Some(cancel_reason()),
        final(session).metadata.id == old(session).metadata.id,
        final(session).metadata.label == old(session).metadata.label,
        final(session).metadata.working_dir == old(session).metadata.working_dir,
        final(session).metadata.created_at == old(session).metadata.created_at,
        final(session).metadata.policy == old(session).metadata.policy,
        final(session).metadata.token_estimate == old(session).metadata.token_estimate,
        final(session).metadata.token_usage == old(session).metadata.token_usage,
{
    let ghost e0 = session.events@;
    let ghost m0 = session.metadata;
    let ghost n0 = e0.len();
    let ids = session.pending_tool_call_ids();
    let ghost p = pending_calls(e0, e0);
    assert(ids@.len() == p.len());
    let mut i: usize = 0;
    while i < ids.len()
        invariant
            i <= ids@.len(),
            ids@.len() == p.len(),
            forall|k: int| 0 <= k < ids@.len() ==> #[trigger] ids@[k]@ == p[k],
            session.events@.len() == n0 + i,
            session.events@.take(n0 as int) == e0,
            forall|k: int|
                0 <= k < i ==> (#[trigger] session.events@[n0 + k] matches Event::ToolResult { call_id, content, .. }
                    && call_id@ == p[k] && content@ == cancelled_content()),
            forall|k: int|
                0 <= k < i ==> (#[trigger] session.events@[n0 + k] matches Event::ToolResult { event_id, timestamp, .. }
                    && event_id == stamps@[k].event_id && timestamp == stamps@[k].timestamp),
            stamps@.len() == p.len() + 1,
            session.metadata == (Metadata { updated_at: session.metadata.updated_at, ..m0 }),
        decreases ids@.len() - i,
    {
        let ghost before = session.events@;
        let stamp = Stamp { event_id: stamps[i].event_id.clone(), timestamp: stamps[i].timestamp.clone() };
        append_result(session, ids[i].clone(), cancelled_result(), stamp);
        proof {
            assert(session.events@.take(n0 as int) =~= before.take(n0 as int));
            assert forall|k: int| 0 <= k < i + 1 implies (#[trigger] session.events@[n0 + k] matches Event::ToolResult {
                event_id,
                timestamp,
                ..
            } && event_id == stamps@[k].event_id && timestamp == stamps@[k].timestamp) by {
                if k < i {
                    assert(session.events@[n0 + k] == before[n0 + k]);
                }
            }
            assert forall|k: int| 0 <= k < i + 1 implies (#[trigger] session.events@[n0 + k] matches Event::ToolResult {
                call_id,
                content,
                ..
            } && call_id@ == p[k] && content@ == cancelled_content()) by {
                if k < i {
                    assert(session.events@[n0 + k] == before[n0 + k]);
                }
            }
        }
        i = i + 1;
    }
    let ghost before = session.events@;
    let last = ids.len();
    let now = stamps[last].timestamp.clone();
    session.append(
        Event::Termination {
            event_id: stamps[last].event_id.clone(),
            timestamp: stamps[last].timestamp.clone(),
            reason: "cancelled by user".to_owned(),
            token_usage: TokenUsage::zero(),
        },
        now,
    );
    session.metadata.status = Status::Idle;
    session.metadata.pid = None;
    session.metadata.termination_reason = Some("cancelled by user".to_owned());
    proof {
        let fe = session.events@;
        assert(fe.take(n0 as int) =~= before.take(n0 as int));
        assert forall|k: int| 0 <= k < p.len() implies (#[trigger] fe[n0 + k] matches Event::ToolResult {
            call_id,
            content,
            ..
        } && call_id@ == p[k] && content@ == cancelled_content()) by {
            assert(fe[n0 + k] == before[n0 + k]);
        }
        assert forall|k: int| 0 <= k < p.len() implies (#[trigger] fe[n0 + k] matches Event::ToolResult {
            event_id,
            timestamp,
            ..
        } && event_id == stamps@[k].event_id && timestamp == stamps@[k].timestamp) by {
            assert(fe[n0 + k] == before[n0 + k]);
        }
        assert forall|j: int, c: int| 0 <= j < fe.len() implies match #[trigger] call_id_at(fe[j], c) {
            Some(id) => has_result(fe, id),
            None => true,
        } by {
            if let Some(id) = call_id_at(fe[j], c) {
                if j >= n0 {
                    if j < n0 + p.len() {
                        let k = j - n0;
                        assert(fe[n0 + k] matches Event::ToolResult { .. });
                    }
                    assert(false);
                }
                assert(fe[j] == fe.take(n0 as int)[j]);
                assert(e0[j] == fe[j]);
                if has_result(e0, id) {
                    lemma_has_result_grows(e0, fe, id);
                } else {
                    lemma_pending_member(e0, e0, j, c, id);
                    let k = choose|k: int| 0 <= k < p.len() && p[k] == id;
                    assert(fe[n0 + k] matches Event::ToolResult { .. });
                    assert(is_result_for(fe[n0 + k], id));
                }
            }
        }
        lemma_pending_empty(fe, fe);
    }
}

/// The content of the last assistant message of a log.
pub open spec fn last_assistant(events: Seq<Event>) -> Option<Seq<char>>
    decreases events.len(),
{
    if events.len() == 0 {
        None
    } else {
        match events.last() {
            Event::Message { role, content, .. } => if role@ == "assistant"@ {
                Some(content@)
            } else {
                last_assistant(events.drop_last())
            },
            _ => last_assistant(events.drop_last()),
        }
    }
}

/// The last message the assistant sent in a session (`get --last-message`).
pub fn last_message(session: &Session) -> (r: Option<String>)
    ensures
        opt_chars(r) == last_assistant(session.events@),
{
    let events = &session.events;
    let mut k: usize = events.len();
    assert(events@.take(k as int) =~= events@);
    while k > 0
        invariant
            k <= events@.len(),
            events@ == session.events@,
            last_assistant(events@) == last_assistant(events@.take(k as int)),
        decreases k,
    {
        assert(events@.take(k as int).drop_last() =~= events@.take(k - 1));
        assert(events@.take(k as int).last() == events@[k - 1]);
        if let Event::Message { role, content, .. } = &events[k - 1] {
            if str_eq(role.as_str(), "assistant") {
                let found = content.clone();
                assert(found@ == content@);
                assert(last_assistant(events@.take(k as int)) == Some(content@));
                return Some(found);
            }
        }
        k = k - 1;
    }
    assert(events@.take(0) =~= Seq::<Event>::empty());
    None
}

/// The first argument of a command that needs an id, or the message naming
/// the command.
pub fn required_id(args: &[String], command: &str) -> (r: Result<String, String>)
    ensures
        args@.len() > 0 ==> r == Ok::<String, String>(args@[0]),
        args@.len() == 0 ==> (r matches Err(m) && m@ == command@ + " requires an id"@),
{
    if args.len() > 0 {
        Ok(args[0].clone())
    } else {
        Err(concat(command, " requires an id"))
    }
}

/// The subcommands of `auth`.
#[derive(Debug, Clone, Copy, PartialEq, Eq, Structural)]
pub enum AuthCommand {
    List,
    Validate,
    Login,
}

/// The `auth` subcommand a first argument names: `list` when there is none.
pub fn auth_command(first: Option<&str>) -> (r: Result<AuthCommand, String>)
    ensures
        match opt_str(first) {
            None => r == Ok::<AuthCommand, String>(AuthCommand::List),
            Some(a) => if a == "list"@ {
                r == Ok::<AuthCommand, String>(AuthCommand::List)
            } else if a == "validate"@ {
                r == Ok::<AuthCommand, String>(AuthCommand::Validate)
            } else if a == "login"@ {
                r == Ok::<AuthCommand, String>(AuthCommand::Login)
            } else {
                r matches Err(m) && m@ == "unknown auth command"@
            },
        },
{
    match first {
        None => Ok(AuthCommand::List),
        Some(a) => if str_eq(a, "list") {
            Ok(AuthCommand::List)
        } else if str_eq(a, "validate") {
            Ok(AuthCommand::Validate)
        } else if str_eq(a, "login") {
            Ok(AuthCommand::Login)
        } else {
            Err("unknown auth command".to_owned())
        },
    }
}

} // verus!
