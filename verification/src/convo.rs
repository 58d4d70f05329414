//! Conversations kept under a base directory: their locations, and how a
//! conversation's metadata takes an update.
use crate::model::Status;
use crate::paths::{join, join_path};
use crate::session::{given_or, present_or};
use vstd::prelude::*;

verus! {

/// The conversations under a base directory.
#[derive(Debug, Clone, PartialEq, Eq)]
pub struct Store {
    pub base_path: String,
}

impl Store {
    /// A store rooted at `base_path`.
    pub fn with_base(base_path: String) -> (s: Store)
        ensures
            s.base_path == base_path,
    {
        Store { base_path }
    }

    /// The store of the configuration tree at `config_dir`: its `sessions`.
    pub fn with_config_dir(config_dir: &str) -> (s: Store)
        ensures
            s.base_path@ == join_path(config_dir@, "sessions"@),
    {
        Store { base_path: join(config_dir, "sessions") }
    }

    /// The store of the user's data directory: its `conversations`.
    pub fn in_data_dir(orchid_dir: &str) -> (s: Store)
        ensures
            s.base_path@ == join_path(orchid_dir@, "conversations"@),
    {
        Store { base_path: join(orchid_dir, "conversations") }
    }

    /// The store's base directory.
    pub fn base_path(&self) -> (p: &str)
        ensures
            p@ == self.base_path@,
    {
        self.base_path.as_str()
    }

    /// The metadata file of conversation `id`.
    pub fn metadata_path(&self, id: &str) -> (p: String)
        ensures
            p@ == join_path(join_path(self.base_path@, id@), "metadata.json"@),
    {
        join(join(self.base_path.as_str(), id).as_str(), "metadata.json")
    }
}

/// The transcript of conversation `convo_id` in the data directory
/// `orchid_dir`.
pub fn get_convo_jsonl_path(convo_id: &str, orchid_dir: &str) -> (p: String)
    ensures
        p@ == join_path(join_path(join_path(orchid_dir@, "conversations"@), convo_id@), "conversation.jsonl"@),
{
    join(get_convo_dir(convo_id, orchid_dir).as_str(), "conversation.jsonl")
}

/// The directory of conversation `convo_id` in the data directory
/// `orchid_dir`.
pub fn get_convo_dir(convo_id: &str, orchid_dir: &str) -> (p: String)
    ensures
        p@ == join_path(join_path(orchid_dir@, "conversations"@), convo_id@),
{
    join(join(orchid_dir, "conversations").as_str(), convo_id)
}

/// The directory of conversation `convo_id` in the configuration tree at
/// `config_dir`.
pub fn get_convo_dir_from_config(convo_id: &str, config_dir: &str) -> (p: String)
    ensures
        p@ == join_path(join_path(config_dir@, "sessions"@), convo_id@),
{
    join(join(config_dir, "sessions").as_str(), convo_id)
}

/// The metadata of a conversation.
#[derive(Debug, PartialEq)]
pub struct ConvoMetadata {
    pub id: String,
    pub label: Option<String>,
    pub persona: Option<String>,
    pub working_dir: Option<String>,
    pub created_at: String,
    pub updated_at: String,
    pub status: Status,
    pub pid: Option<u32>,
    pub run_started_at: Option<String>,
    pub last_run_at: Option<String>,
    pub last_message: Option<String>,
    pub token_estimate: Option<u32>,
    pub allow_scope_escape: Option<bool>,
    pub scope_exceptions: Option<Vec<String>>,
}

/// A change to a conversation's metadata: each field given replaces the
/// stored one.
#[derive(Debug, PartialEq)]
pub struct MetadataUpdate {
    pub label: Option<Option<String>>,
    pub persona: Option<Option<String>>,
    pub working_dir: Option<Option<String>>,
    pub status: Option<Status>,
    pub pid: Option<Option<u32>>,
    pub run_started_at: Option<Option<String>>,
    pub last_run_at: Option<Option<String>>,
    pub last_message: Option<String>,
    pub token_estimate: Option<u32>,
    pub scope_exceptions: Option<Option<Vec<String>>>,
}

/// The update that changes nothing.
pub open spec fn no_update() -> MetadataUpdate {
    MetadataUpdate {
        label: None,
        persona: None,
        working_dir: None,
        status: None,
        pid: None,
        run_started_at: None,
        last_run_at: None,
        last_message: None,
        token_estimate: None,
        scope_exceptions: None,
    }
}

impl MetadataUpdate {
    /// The update that changes nothing.
    pub fn none() -> (u: MetadataUpdate)
        ensures
            u == no_update(),
    {
        MetadataUpdate {
            label: None,
            persona: None,
            working_dir: None,
            status: None,
            pid: None,
            run_started_at: None,
            last_run_at: None,
            last_message: None,
            token_estimate: None,
            scope_exceptions: None,
        }
    }
}

/// A copy of an optional string.
fn copy_opt(v: &Option<String>) -> (r: Option<String>)
    ensures
        r == *v,
{
    match v {
        Some(s) => Some(s.clone()),
        None => None,
    }
}

/// Applies an update to a conversation's metadata, stamping it at `now`.
pub fn update(meta: ConvoMetadata, updates: MetadataUpdate, now: String) -> (r: ConvoMetadata)
    ensures
        r.id == meta.id,
        r.created_at == meta.created_at,
        r.allow_scope_escape == meta.allow_scope_escape,
        r.label == given_or(updates.label, meta.label),
        r.persona == given_or(updates.persona, meta.persona),
        r.working_dir == given_or(updates.working_dir, meta.working_dir),
        r.status == given_or(updates.status, meta.status),
        r.pid == given_or(updates.pid, meta.pid),
        r.run_started_at == given_or(updates.run_started_at, meta.run_started_at),
        r.last_run_at == given_or(updates.last_run_at, meta.last_run_at),
        r.last_message == present_or(updates.last_message, meta.last_message),
        r.token_estimate == present_or(updates.token_estimate, meta.token_estimate),
        r.scope_exceptions == given_or(updates.scope_exceptions, meta.scope_exceptions),
        r.updated_at == now,
{
    let mut meta = meta;
    if let Some(label) = updates.label {
        meta.label = label;
    }
    if let Some(persona) = updates.persona {
        meta.persona = persona;
    }
    if let Some(working_dir) = updates.working_dir {
        meta.working_dir = working_dir;
    }
    if let Some(status) = updates.status {
        meta.status = status;
    }
    if let Some(pid) = updates.pid {
        meta.pid = pid;
    }
    if let Some(run_started_at) = updates.run_started_at {
        meta.run_started_at = run_started_at;
    }
    if let Some(last_run_at) = updates.last_run_at {
        meta.last_run_at = last_run_at;
    }
    if let Some(last_message) = updates.last_message {
        meta.last_message = Some(last_message);
    }
    if let Some(token_estimate) = updates.token_estimate {
        meta.token_estimate = Some(token_estimate);
    }
    if let Some(scope_exceptions) = updates.scope_exceptions {
        meta.scope_exceptions = scope_exceptions;
    }
    meta.updated_at = now;
    meta
}

/// The update that marks a run started by worker `pid` at `now`.
pub fn run_start_update(pid: u32, now: String) -> (u: MetadataUpdate)
    ensures
        u == (MetadataUpdate {
            status: Some(Status::Running),
            pid: Some(Some(pid)),
            run_started_at: Some(Some(now)),
            ..no_update()
        }),
{
    let mut u = MetadataUpdate::none();
    u.status = Some(Status::Running);
    u.pid = Some(Some(pid));
    u.run_started_at = Some(Some(now));
    u
}

/// The update that marks a run ended at `now`.
pub fn run_end_update(now: String) -> (u: MetadataUpdate)
    ensures
        u == (MetadataUpdate {
            status: Some(Status::Idle),
            pid: Some(None),
            run_started_at: Some(None),
            last_run_at: Some(Some(now)),
            ..no_update()
        }),
{
    let mut u = MetadataUpdate::none();
    u.status = Some(Status::Idle);
    u.pid = Some(None);
    u.run_started_at = Some(None);
    u.last_run_at = Some(Some(now));
    u
}

/// Settles a conversation whose run crashed: idle, without a worker or a
/// run start, stamped at `now`; nothing else changes.
pub fn reconcile_crashed(meta: ConvoMetadata, now: String) -> (r: ConvoMetadata)
    ensures
        r == (ConvoMetadata { status: Status::Idle, pid: None, run_started_at: None, updated_at: now, ..meta }),
{
    let mut u = MetadataUpdate::none();
    u.status = Some(Status::Idle);
    u.pid = Some(None);
    u.run_started_at = Some(None);
    update(meta, u, now)
}

/// A run crashed: its state says running with a worker that is gone.
pub fn detect_crashed(status: Status, pid: Option<u32>, alive: bool) -> (r: bool)
    ensures
        r == (status == Status::Running && pid is Some && !alive),
{
    status == Status::Running && pid.is_some() && !alive
}

} // verus!
