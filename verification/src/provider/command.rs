//! The worker command: the arguments it is started with, the provider it
//! uses, and how the end of its run is recorded in the session.
use crate::cli::{pair_flag, pair_value};
use crate::config::Policy;
use crate::model::{same_but_updated, with_usage, Event, Metadata, Session, Stamp, Status, TokenUsage};
use crate::text::{chars_of, concat, contains, contains_seq, has_prefix, opt_chars, starts_with, str_eq, string_views};
use vstd::prelude::*;

verus! {

/// The last argument that is neither a flag nor the session id.
pub open spec fn last_message_arg(args: Seq<Seq<char>>, id: Seq<char>) -> Option<Seq<char>>
    decreases args.len(),
{
    if args.len() == 0 {
        None
    } else if !has_prefix(args.last(), "-"@) && args.last() != id {
        Some(args.last())
    } else {
        last_message_arg(args.drop_last(), id)
    }
}

/// The session id and message a worker is started with, or why they are
/// missing: the id follows `--id`; the message is the last argument that
/// is neither a flag nor the id.
pub fn command_args(args: &[String]) -> (r: Result<(String, String), String>)
    ensures
        match r {
            Ok((id, message)) => pair_value(string_views(args@), "--id"@) == Some(id@) && last_message_arg(
                string_views(args@),
                id@,
            ) == Some(message@),
            Err(e) => match pair_value(string_views(args@), "--id"@) {
                None => e@ == "__run requires --id"@,
                Some(id) => last_message_arg(string_views(args@), id) is None && e@ == "__run requires a message"@,
            },
        },
{
    let ghost views = string_views(args@);
    let id = match pair_flag(args, "--id") {
        Some(id) => id,
        None => {
            return Err("__run requires --id".to_owned());
        },
    };
    let dash = chars_of("-");
    let mut k: usize = args.len();
    assert(views.take(k as int) =~= views);
    while k > 0
        invariant
            k <= args@.len(),
            views == string_views(args@),
            dash@ == "-"@,
            pair_value(views, "--id"@) == Some(id@),
            last_message_arg(views, id@) == last_message_arg(views.take(k as int), id@),
        decreases k,
    {
        assert(views.take(k as int).drop_last() =~= views.take(k - 1));
        assert(views.take(k as int).last() == args@[k - 1]@);
        let arg = args[k - 1].as_str();
        if !starts_with(&chars_of(arg), &dash) && !str_eq(arg, id.as_str()) {
            return Ok((id, arg.to_owned()));
        }
        k = k - 1;
    }
    assert(views.take(0) =~= Seq::<Seq<char>>::empty());
    Err("__run requires a message".to_owned())
}

/// Which provider a worker talks to.
#[derive(Debug, Clone, Copy, PartialEq, Eq, Structural)]
pub enum ProviderChoice {
    /// The connection the policy configures.
    Configured,
    /// The built-in local provider.
    Local,
}

/// Chooses the provider of a run: the configured connection where there is
/// one; the local provider where the policy names no connection; a policy
/// that names connections of which none is available fails the run.
pub fn select_provider(policy: &Policy, configured_available: bool) -> (r: Result<ProviderChoice, String>)
    ensures
        configured_available ==> r == Ok::<ProviderChoice, String>(ProviderChoice::Configured),
        !configured_available && policy.connections@.len() == 0 ==> r == Ok::<ProviderChoice, String>(
            ProviderChoice::Local,
        ),
        !configured_available && policy.connections@.len() > 0 ==> (r matches Err(m) && m@
            == "configured connection unavailable"@),
{
    if configured_available {
        Ok(ProviderChoice::Configured)
    } else if policy.connections.len() == 0 {
        Ok(ProviderChoice::Local)
    } else {
        Err("configured connection unavailable".to_owned())
    }
}

/// A failure message that ends the session for its token threshold.
pub open spec fn terminates(message: Seq<char>) -> bool {
    contains_seq(message, "token threshold"@)
}

/// Records a failed run: the session ends `Terminated` when the message
/// speaks of the token threshold and `Failed` otherwise, without a worker,
/// with the message as its termination reason, and with a termination or a
/// failure event carrying the message, recorded with `stamp`. Returns
/// whether it terminated.
pub fn finish_failure(session: &mut Session, message: &str, stamp: Stamp) -> (terminated: bool)
    ensures
        terminated == terminates(message@),
        final(session).metadata.status == (if terminated {
            Status::Terminated
        } else {
            Status::Failed
        }),
        final(session).metadata.pid is None,
        opt_chars(final(session).metadata.termination_reason) == Some(message@),
        final(session).metadata.id == old(session).metadata.id,
        final(session).metadata.label == old(session).metadata.label,
        final(session).metadata.working_dir == old(session).metadata.working_dir,
        final(session).metadata.created_at == old(session).metadata.created_at,
        final(session).metadata.policy == old(session).metadata.policy,
        final(session).metadata.token_estimate == old(session).metadata.token_estimate,
        final(session).metadata.token_usage == old(session).metadata.token_usage,
        final(session).metadata.updated_at == stamp.timestamp,
        final(session).events@.len() == old(session).events@.len() + 1,
        final(session).events@.drop_last() == old(session).events@,
        terminated ==> (final(session).events@.last() matches Event::Termination {
            event_id,
            timestamp,
            reason,
            token_usage,
        } && event_id == stamp.event_id && timestamp == stamp.timestamp && reason@ == message@ && token_usage
            == old(session).metadata.token_usage),
        !terminated ==> (final(session).events@.last() matches Event::Failure {
            event_id,
            timestamp,
            message: m,
            token_usage,
        } && event_id == stamp.event_id && timestamp == stamp.timestamp && m@ == message@ && token_usage
            == old(session).metadata.token_usage),
{
    let terminated = contains(&chars_of(message), &chars_of("token threshold"));
    session.metadata.status = if terminated {
        Status::Terminated
    } else {
        Status::Failed
    };
    session.metadata.pid = None;
    session.metadata.termination_reason = Some(message.to_owned());
    let now = stamp.timestamp.clone();
    let event = if terminated {
        Event::Termination {
            event_id: stamp.event_id,
            timestamp: stamp.timestamp,
            reason: message.to_owned(),
            token_usage: TokenUsage::zero(),
        }
    } else {
        Event::Failure {
            event_id: stamp.event_id,
            timestamp: stamp.timestamp,
            message: message.to_owned(),
            token_usage: TokenUsage::zero(),
        }
    };
    session.append(event, now);
    terminated
}

/// Records a successful run: unless the session was cancelled meanwhile
/// (`current` is its stored status), it becomes idle without a worker.
/// Returns whether the session changed and must be saved.
pub fn finish_success(session: &mut Session, current: Status) -> (changed: bool)
    ensures
        changed == (current != Status::Cancelled),
        changed ==> final(session).metadata == (Metadata {
            status: Status::Idle,
            pid: None,
            ..old(session).metadata
        }),
        !changed ==> *final(session) == *old(session),
        final(session).events == old(session).events,
{
    if current != Status::Cancelled {
        session.metadata.status = Status::Idle;
        session.metadata.pid = None;
        true
    } else {
        false
    }
}

} // verus!
