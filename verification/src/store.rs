//! The session store's decisions: where a session lives, which log lines
//! are kept, how far an event stream may be appended, and how a session
//! whose worker vanished is settled.
use crate::config::{Policy, PolicyV};
use crate::model::{same_but_updated, with_usage, Event, Session, Stamp, Status, TokenUsage};
use crate::paths::{join, join_path};
use crate::text::{opt_chars, str_eq};
use vstd::prelude::*;

verus! {

/// A store of sessions under a root directory.
#[derive(Debug, Clone, PartialEq, Eq)]
pub struct Store {
    pub root: String,
}

/// The rank of a log level: `debug` 0, `info` 1, `warning` 2, `error` 3;
/// anything else counts as `info`.
pub open spec fn rank(level: Seq<char>) -> u8 {
    if level == "debug"@ {
        0
    } else if level == "info"@ {
        1
    } else if level == "warning"@ {
        2
    } else if level == "error"@ {
        3
    } else {
        1
    }
}

/// The rank of a log level.
pub fn level_rank(level: &str) -> (r: u8)
    ensures
        r == rank(level@),
{
    if str_eq(level, "debug") {
        0
    } else if str_eq(level, "info") {
        1
    } else if str_eq(level, "warning") {
        2
    } else if str_eq(level, "error") {
        3
    } else {
        1
    }
}

/// A record of level `level` is kept where `configured` is the threshold.
pub open spec fn kept(level: Seq<char>, configured: Seq<char>) -> bool {
    rank(level) >= rank(configured)
}

/// Where the store keeps its files, given the home directory: under
/// `.config/orchid` there, else in `.orchid-simplified`.
pub open spec fn default_root_of(home: Option<Seq<char>>) -> Seq<char> {
    match home {
        Some(h) => join_path(join_path(h, ".config"@), "orchid"@),
        None => ".orchid-simplified"@,
    }
}

/// The store's default root for the home directory `home`.
pub fn default_root(home: Option<String>) -> (r: String)
    ensures
        r@ == default_root_of(opt_chars(home)),
{
    match home {
        Some(h) => join(join(h.as_str(), ".config").as_str(), "orchid"),
        None => ".orchid-simplified".to_owned(),
    }
}

impl Store {
    /// A store rooted at `root`.
    pub fn new(root: String) -> (s: Store)
        ensures
            s.root == root,
    {
        Store { root }
    }

    /// The directory of session `id`: `sessions/<id>` under the root.
    pub open spec fn dir_of(&self, id: Seq<char>) -> Seq<char> {
        join_path(join_path(self.root@, "sessions"@), id)
    }

    /// The directory of session `id`.
    pub fn path(&self, id: &str) -> (p: String)
        ensures
            p@ == self.dir_of(id@),
    {
        join(join(self.root.as_str(), "sessions").as_str(), id)
    }

    /// The log of session `id`.
    pub fn log_path(&self, id: &str) -> (p: String)
        ensures
            p@ == join_path(self.dir_of(id@), "logs.jsonl"@),
    {
        join(self.path(id).as_str(), "logs.jsonl")
    }

    /// The store-wide log.
    pub fn global_log_path(&self) -> (p: String)
        ensures
            p@ == join_path(self.root@, "logs.jsonl"@),
    {
        join(self.root.as_str(), "logs.jsonl")
    }

    /// The logs a record goes to when it is logged to both: the session's,
    /// then the store's, or none when its level is under the threshold.
    pub fn log_both(&self, id: &str, level: &str, configured: &str) -> (r: Vec<String>)
        ensures
            kept(level@, configured@) ==> r@.len() == 2 && r@[0]@ == join_path(self.dir_of(id@), "logs.jsonl"@)
                && r@[1]@ == join_path(self.root@, "logs.jsonl"@),
            !kept(level@, configured@) ==> r@.len() == 0,
    {
        let mut r: Vec<String> = Vec::new();
        if level_rank(level) < level_rank(configured) {
            return r;
        }
        r.push(self.log_path(id));
        r.push(self.global_log_path());
        r
    }

    /// The log a record goes to when it is logged to the session only, or
    /// none when its level is under the threshold.
    pub fn log_filtered(&self, id: &str, level: &str, configured: &str) -> (r: Option<String>)
        ensures
            kept(level@, configured@) ==> (r matches Some(p) && p@ == join_path(self.dir_of(id@), "logs.jsonl"@)),
            !kept(level@, configured@) ==> r is None,
    {
        if level_rank(level) >= level_rank(configured) {
            Some(self.log_path(id))
        } else {
            None
        }
    }
}

/// How an event stream of `existing` stored events is brought to `count`:
/// the index of the first event to append, or the refusal to shrink it.
pub fn append_from(existing: usize, count: usize) -> (r: Result<usize, String>)
    ensures
        existing <= count ==> r == Ok::<usize, String>(existing),
        existing > count ==> (r matches Err(m) && m@ == "event stream cannot shrink"@),
{
    if existing > count {
        Err("event stream cannot shrink".to_owned())
    } else {
        Ok(existing)
    }
}

/// The event stream a store holds after saving a session with `events` over
/// a stream that held `stored`: the stored events, then the session's events
/// from the index `append_from` gives on.
pub open spec fn saved_stream<T>(stored: Seq<T>, events: Seq<T>) -> Seq<T> {
    stored + events.skip(stored.len() as int)
}

/// Saving only appends: every stored event stays, in place, and where the
/// stored events begin the session's events, the stream afterwards is
/// exactly the session's events.
pub proof fn law_saving_only_appends<T>(stored: Seq<T>, events: Seq<T>)
    requires
        stored.len() <= events.len(),
    ensures
        saved_stream(stored, events).take(stored.len() as int) == stored,
        saved_stream(stored, events).len() == events.len(),
        stored == events.take(stored.len() as int) ==> saved_stream(stored, events) == events,
{
    assert(saved_stream(stored, events).take(stored.len() as int) =~= stored);
    if stored == events.take(stored.len() as int) {
        assert(saved_stream(stored, events) =~= events);
    }
}

/// The message recorded when a running session's worker is gone.
pub open spec fn vanished_message() -> Seq<char> {
    "worker process disappeared"@
}

/// Settles a session whose worker is gone: a running session whose worker
/// is not alive fails, loses its worker, records why and gains a failure
/// event under `stamp`, its id and time. Returns whether it changed.
pub fn reconcile_worker(session: &mut Session, alive: bool, stamp: Stamp) -> (changed: bool)
    ensures
        changed == (old(session).metadata.status == Status::Running && !alive),
        !changed ==> *final(session) == *old(session),
        changed ==> final(session).metadata.status == Status::Failed,
        changed ==> final(session).metadata.pid is None,
        changed ==> opt_chars(final(session).metadata.termination_reason) == Some(vanished_message()),
        changed ==> final(session).events@.drop_last() == old(session).events@,
        changed ==> (final(session).events@.last() matches Event::Failure { event_id, timestamp, message, token_usage }
            && event_id == stamp.event_id && timestamp == stamp.timestamp
            && message@ == vanished_message() && token_usage == old(session).metadata.token_usage),
        changed ==> final(session).metadata.updated_at == stamp.timestamp,
        changed ==> final(session).metadata.policy == old(session).metadata.policy,
        changed ==> final(session).metadata.id == old(session).metadata.id,
{
    if session.metadata.status != Status::Running || alive {
        return false;
    }
    session.metadata.status = Status::Failed;
    session.metadata.pid = None;
    session.metadata.termination_reason = Some("worker process disappeared".to_owned());
    let now = stamp.timestamp.clone();
    session.append(
        Event::Failure {
            event_id: stamp.event_id,
            timestamp: stamp.timestamp,
            message: "worker process disappeared".to_owned(),
            token_usage: TokenUsage::zero(),
        },
        now,
    );
    true
}

/// Keeps a policy that was changed on disk: where the stored metadata has a
/// policy, the session takes it; otherwise nothing changes.
pub fn preserve_external_policy(session: &mut Session, stored: Option<Policy>)
    ensures
        match stored {
            Some(p) => final(session).metadata == (crate::model::Metadata {
                policy: p,
                ..old(session).metadata
            }),
            None => final(session).metadata == old(session).metadata,
        },
        final(session).events == old(session).events,
{
    if let Some(p) = stored {
        session.metadata.policy = p;
    }
}

} // verus!
