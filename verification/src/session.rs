//! Where sessions live on disk, what a session id looks like, how fresh ids
//! are made, and how a session's state and metadata take an update.
use crate::model::Status;
use crate::paths::{join, join_path};
use crate::text::{chars_of, concat, opt_chars, push_char, push_str};
use vstd::prelude::*;

verus! {

/// `c` is an ASCII hexadecimal digit, in either case.
pub open spec fn is_hex_digit(c: char) -> bool {
    ('0' <= c <= '9') || ('a' <= c <= 'f') || ('A' <= c <= 'F')
}

/// A session id: 32 ASCII hexadecimal digits.
pub open spec fn id_format(s: Seq<char>) -> bool {
    s.len() == 32 && forall|i: int| 0 <= i < s.len() ==> is_hex_digit(#[trigger] s[i])
}

/// Whether `s` is a session id.
pub fn is_id_format(s: &str) -> (r: bool)
    ensures
        r == id_format(s@),
{
    let c = chars_of(s);
    if c.len() != 32 {
        return false;
    }
    let mut i: usize = 0;
    while i < c.len()
        invariant
            i <= c@.len(),
            c@ == s@,
            forall|k: int| 0 <= k < i ==> is_hex_digit(#[trigger] c@[k]),
        decreases c@.len() - i,
    {
        let ch = c[i];
        if !(('0' <= ch && ch <= '9') || ('a' <= ch && ch <= 'f') || ('A' <= ch && ch <= 'F')) {
            return false;
        }
        i = i + 1;
    }
    true
}

/// The lowercase hexadecimal digit of `d < 16`.
pub open spec fn hex_digit(d: nat) -> char {
    if d < 10 {
        (('0' as nat) + d) as char
    } else {
        (('a' as nat) + (d - 10)) as char
    }
}

/// The lowercase hexadecimal text of `bytes`: two digits per byte, the high
/// half first.
pub open spec fn hex_of(bytes: Seq<u8>) -> Seq<char>
    decreases bytes.len(),
{
    if bytes.len() == 0 {
        Seq::empty()
    } else {
        hex_of(bytes.drop_last()) + seq![hex_digit((bytes.last() / 16) as nat), hex_digit((bytes.last() % 16) as nat)]
    }
}

/// Sixteen bytes from the operating system's random source
/// (`getrandom::getrandom`), or nothing where the source fails; nothing
/// is claimed of the bytes themselves.
#[verifier::external_body]
pub(crate) fn random_bytes() -> (r: Option<Vec<u8>>)
    ensures
        r matches Some(v) ==> v@.len() == 16,
{
    let mut bytes = [0u8; 16];
    match getrandom::getrandom(&mut bytes) {
        Ok(()) => Some(bytes.to_vec()),
        Err(_) => None,
    }
}

/// `c` is a lowercase hexadecimal digit.
pub open spec fn is_lower_hex(c: char) -> bool {
    ('0' <= c <= '9') || ('a' <= c <= 'f')
}

/// Hexadecimal text has two digits per byte, every one a lowercase hex
/// digit.
pub proof fn lemma_hex_of(bytes: Seq<u8>)
    ensures
        hex_of(bytes).len() == 2 * bytes.len(),
        forall|i: int| 0 <= i < hex_of(bytes).len() ==> is_lower_hex(#[trigger] hex_of(bytes)[i]),
        forall|i: int| 0 <= i < hex_of(bytes).len() ==> is_hex_digit(#[trigger] hex_of(bytes)[i]),
    decreases bytes.len(),
{
    if bytes.len() > 0 {
        lemma_hex_of(bytes.drop_last());
        let b = bytes.last();
        assert forall|i: int| 0 <= i < hex_of(bytes).len() implies is_lower_hex(#[trigger] hex_of(bytes)[i]) by {
            let prev = hex_of(bytes.drop_last());
            if i < prev.len() {
                assert(hex_of(bytes)[i] == prev[i]);
            } else {
                let d: nat = if i == prev.len() {
                    (b / 16) as nat
                } else {
                    (b % 16) as nat
                };
                assert(d < 16);
                assert(hex_of(bytes)[i] == hex_digit(d));
            }
        }
    }
}

/// The lowercase hexadecimal digit of `d`.
fn hex_char(d: u8) -> (c: char)
    requires
        d < 16,
    ensures
        c == hex_digit(d as nat),
{
    if d < 10 {
        (48u8 + d) as char
    } else {
        (87u8 + d) as char
    }
}

/// The bytes in lowercase hexadecimal, two digits per byte, the high half
/// first (what `hex::encode` writes); sixteen bytes make a session id.
pub fn id_of_bytes(bytes: &Vec<u8>) -> (s: String)
    ensures
        s@ == hex_of(bytes@),
        bytes@.len() == 16 ==> id_format(s@),
{
    let mut s = String::new();
    let mut i: usize = 0;
    assert(bytes@.take(0) =~= Seq::<u8>::empty());
    while i < bytes.len()
        invariant
            i <= bytes@.len(),
            s@ == hex_of(bytes@.take(i as int)),
        decreases bytes@.len() - i,
    {
        let b = bytes[i];
        assert(bytes@.take(i + 1).drop_last() =~= bytes@.take(i as int));
        assert(bytes@.take(i + 1).last() == b);
        push_char(&mut s, hex_char(b / 16));
        push_char(&mut s, hex_char(b % 16));
        i = i + 1;
    }
    assert(bytes@.take(i as int) =~= bytes@);
    proof {
        lemma_hex_of(bytes@);
    }
    s
}

/// A fresh session id: 16 random bytes in lowercase hexadecimal, or nothing
/// where the random source fails.
pub fn generate_id() -> (r: Option<String>)
    ensures
        r matches Some(id) ==> id_format(id@),
{
    match random_bytes() {
        Some(bytes) => Some(id_of_bytes(&bytes)),
        None => None,
    }
}

/// The sessions under a base directory.
#[derive(Debug, Clone, PartialEq, Eq)]
pub struct SessionStore {
    pub base_path: String,
}

impl SessionStore {
    /// The store of the default configuration tree: `config/sessions`.
    pub fn new() -> (s: SessionStore)
        ensures
            s.base_path@ == join_path("config"@, "sessions"@),
    {
        SessionStore { base_path: join("config", "sessions") }
    }

    /// The store of the configuration tree at `config_dir`: its `sessions`.
    pub fn with_config_dir(config_dir: &str) -> (s: SessionStore)
        ensures
            s.base_path@ == join_path(config_dir@, "sessions"@),
    {
        SessionStore { base_path: join(config_dir, "sessions") }
    }

    /// A store rooted at `base_path`.
    pub fn with_base(base_path: String) -> (s: SessionStore)
        ensures
            s.base_path == base_path,
    {
        SessionStore { base_path }
    }

    /// The store's base directory.
    pub fn base_path(&self) -> (p: &str)
        ensures
            p@ == self.base_path@,
    {
        self.base_path.as_str()
    }

    /// The directory of session `id`.
    pub open spec fn dir_of(&self, id: Seq<char>) -> Seq<char> {
        join_path(self.base_path@, id)
    }

    /// The directory of session `id`.
    pub fn session_path(&self, id: &str) -> (p: String)
        ensures
            p@ == self.dir_of(id@),
    {
        join(self.base_path.as_str(), id)
    }

    /// The transcript of session `id`.
    pub fn transcript_path(&self, id: &str) -> (p: String)
        ensures
            p@ == join_path(self.dir_of(id@), "conversation.jsonl"@),
    {
        join(self.session_path(id).as_str(), "conversation.jsonl")
    }

    /// The metadata file of session `id`.
    pub fn metadata_path(&self, id: &str) -> (p: String)
        ensures
            p@ == join_path(self.dir_of(id@), "metadata.json"@),
    {
        join(self.session_path(id).as_str(), "metadata.json")
    }

    /// The state file of session `id`.
    pub fn state_path(&self, id: &str) -> (p: String)
        ensures
            p@ == join_path(self.dir_of(id@), "state.json"@),
    {
        join(self.session_path(id).as_str(), "state.json")
    }

    /// The temporary file the state of session `id` is written through.
    pub fn state_temp_path(&self, id: &str) -> (p: String)
        ensures
            p@ == join_path(self.dir_of(id@), ".state.json.tmp"@),
    {
        join(self.session_path(id).as_str(), ".state.json.tmp")
    }

    /// The temporary file the metadata of session `id` is written through.
    pub fn metadata_temp_path(&self, id: &str) -> (p: String)
        ensures
            p@ == join_path(self.dir_of(id@), ".metadata.json.tmp"@),
    {
        join(self.session_path(id).as_str(), ".metadata.json.tmp")
    }
}

/// The transcript of session `id` in the default tree.
pub fn get_session_jsonl_path(session_id: &str) -> (p: String)
    ensures
        p@ == join_path(join_path(join_path("config"@, "sessions"@), session_id@), "conversation.jsonl"@),
{
    join(join(join("config", "sessions").as_str(), session_id).as_str(), "conversation.jsonl")
}

/// The transcript of session `id` in the tree at `config_dir`; an id of
/// another form is refused.
pub fn get_session_jsonl_path_from_config(session_id: &str, config_dir: &str) -> (r: Result<String, String>)
    ensures
        match r {
            Ok(p) => id_format(session_id@) && p@ == join_path(
                join_path(join_path(config_dir@, "sessions"@), session_id@),
                "conversation.jsonl"@,
            ),
            Err(m) => !id_format(session_id@) && m@ == "invalid session ID: '"@ + session_id@ + "'"@,
        },
{
    if !is_id_format(session_id) {
        let mut m = concat("invalid session ID: '", session_id);
        push_str(&mut m, "'");
        return Err(m);
    }
    Ok(join(join(join(config_dir, "sessions").as_str(), session_id).as_str(), "conversation.jsonl"))
}

/// The directory of session `id` in the default tree.
pub fn get_session_dir(session_id: &str) -> (p: String)
    ensures
        p@ == join_path(join_path("config"@, "sessions"@), session_id@),
{
    join(join("config", "sessions").as_str(), session_id)
}

/// The directory of session `id` in the tree at `config_dir`.
pub fn get_session_dir_from_config(session_id: &str, config_dir: &str) -> (p: String)
    ensures
        p@ == join_path(join_path(config_dir@, "sessions"@), session_id@),
{
    join(join(config_dir, "sessions").as_str(), session_id)
}

/// The run state of a session.
#[derive(Debug, PartialEq)]
pub struct SessionState {
    pub status: Status,
    pub pid: Option<u32>,
    pub run_started_at: Option<String>,
    pub last_run_at: Option<String>,
    pub last_message: Option<String>,
    pub token_estimate: Option<u32>,
    pub allow_scope_escape: Option<bool>,
    pub scope_exceptions: Option<Vec<String>>,
    pub restrictions: Option<Vec<String>>,
}

/// The descriptive metadata of a session.
#[derive(Debug, PartialEq, Eq)]
pub struct SessionMetadata {
    pub id: String,
    pub policy: Option<String>,
    pub policy_hash: Option<String>,
    pub prompt: Option<String>,
    pub label: Option<String>,
    pub working_dir: Option<String>,
    pub created_at: String,
    pub updated_at: String,
}

/// A change to a session: each field given replaces the stored one.
#[derive(Debug, PartialEq)]
pub struct SessionUpdate {
    pub policy: Option<Option<String>>,
    pub policy_hash: Option<Option<String>>,
    pub prompt: Option<Option<String>>,
    pub label: Option<Option<String>>,
    pub working_dir: Option<Option<String>>,
    pub status: Option<Status>,
    pub pid: Option<Option<u32>>,
    pub run_started_at: Option<Option<String>>,
    pub last_run_at: Option<Option<String>>,
    pub last_message: Option<String>,
    pub token_estimate: Option<u32>,
    pub scope_exceptions: Option<Option<Vec<String>>>,
    pub restrictions: Option<Option<Vec<String>>>,
}

/// The value a field takes: the given one, else the stored one.
pub open spec fn given_or<T>(given: Option<T>, stored: T) -> T {
    match given {
        Some(v) => v,
        None => stored,
    }
}

/// A given value, made present.
pub open spec fn present_or<T>(given: Option<T>, stored: Option<T>) -> Option<T> {
    match given {
        Some(v) => Some(v),
        None => stored,
    }
}

impl SessionUpdate {
    /// The update that changes nothing.
    pub fn none() -> (u: SessionUpdate)
        ensures
            u.policy is None && u.policy_hash is None && u.prompt is None && u.label is None && u.working_dir is None,
            u.status is None && u.pid is None && u.run_started_at is None && u.last_run_at is None,
            u.last_message is None && u.token_estimate is None && u.scope_exceptions is None && u.restrictions is None,
    {
        SessionUpdate {
            policy: None,
            policy_hash: None,
            prompt: None,
            label: None,
            working_dir: None,
            status: None,
            pid: None,
            run_started_at: None,
            last_run_at: None,
            last_message: None,
            token_estimate: None,
            scope_exceptions: None,
            restrictions: None,
        }
    }
}

/// Applies the run-state part of an update.
pub fn update_state(state: SessionState, updates: &SessionUpdate) -> (r: SessionState)
    ensures
        r.status == given_or(updates.status, state.status),
        r.pid == given_or(updates.pid, state.pid),
        r.run_started_at == given_or(updates.run_started_at, state.run_started_at),
        r.last_run_at == given_or(updates.last_run_at, state.last_run_at),
        r.last_message == present_or(updates.last_message, state.last_message),
        r.token_estimate == present_or(updates.token_estimate, state.token_estimate),
        r.allow_scope_escape == state.allow_scope_escape,
        match updates.scope_exceptions {
            Some(v) => match (r.scope_exceptions, v) {
                (Some(a), Some(b)) => a@ == b@,
                (None, None) => true,
                _ => false,
            },
            None => r.scope_exceptions == state.scope_exceptions,
        },
        match updates.restrictions {
            Some(v) => match (r.restrictions, v) {
                (Some(a), Some(b)) => a@ == b@,
                (None, None) => true,
                _ => false,
            },
            None => r.restrictions == state.restrictions,
        },
{
    let mut state = state;
    if let Some(status) = updates.status {
        state.status = status;
    }
    if let Some(pid) = updates.pid {
        state.pid = pid;
    }
    if let Some(value) = &updates.run_started_at {
        state.run_started_at = copy_opt(value);
    }
    if let Some(value) = &updates.last_run_at {
        state.last_run_at = copy_opt(value);
    }
    if let Some(value) = &updates.last_message {
        state.last_message = Some(value.clone());
    }
    if let Some(value) = updates.token_estimate {
        state.token_estimate = Some(value);
    }
    if let Some(value) = &updates.scope_exceptions {
        state.scope_exceptions = copy_list(value);
    }
    if let Some(value) = &updates.restrictions {
        state.restrictions = copy_list(value);
    }
    state
}

/// A copy of an optional string.
fn copy_opt(v: &Option<String>) -> (r: Option<String>)
    ensures
        r == *v,
{
    match v {
        Some(s) => Some(s.clone()),
        None => None,
    }
}

/// A copy of an optional list of strings.
fn copy_list(v: &Option<Vec<String>>) -> (r: Option<Vec<String>>)
    ensures
        match (r, *v) {
            (Some(a), Some(b)) => a@ == b@,
            (None, None) => true,
            _ => false,
        },
{
    match v {
        Some(list) => Some(crate::config::copy_strings(list)),
        None => None,
    }
}

/// Applies the descriptive part of an update, stamping it at `now`.
pub fn update_metadata(meta: SessionMetadata, updates: &SessionUpdate, now: String) -> (r: SessionMetadata)
    ensures
        r == (SessionMetadata {
            policy: given_or(updates.policy, meta.policy),
            policy_hash: given_or(updates.policy_hash, meta.policy_hash),
            prompt: given_or(updates.prompt, meta.prompt),
            label: given_or(updates.label, meta.label),
            working_dir: given_or(updates.working_dir, meta.working_dir),
            updated_at: now,
            ..meta
        }),
{
    let mut meta = meta;
    if let Some(value) = &updates.policy {
        meta.policy = copy_opt(value);
    }
    if let Some(value) = &updates.policy_hash {
        meta.policy_hash = copy_opt(value);
    }
    if let Some(value) = &updates.prompt {
        meta.prompt = copy_opt(value);
    }
    if let Some(value) = &updates.label {
        meta.label = copy_opt(value);
    }
    if let Some(value) = &updates.working_dir {
        meta.working_dir = copy_opt(value);
    }
    meta.updated_at = now;
    meta
}

/// The message of a missing state file.
pub fn missing_state_message(id: &str) -> (m: String)
    ensures
        m@ == "session state is missing: "@ + id@,
{
    concat("session state is missing: ", id)
}

/// How reading one of a session's files failed.
#[derive(Debug, PartialEq, Eq)]
pub enum ReadFailure {
    /// There is no such file.
    NotFound,
    /// The file could not be read, for this reason.
    Unreadable(String),
    /// The file is not the JSON it should be, for this reason.
    Malformed(String),
}

/// The message of a failed read of the state of session `id`.
pub open spec fn state_failure(id: Seq<char>, f: ReadFailure) -> Seq<char> {
    match f {
        ReadFailure::NotFound => "session state is missing: "@ + id,
        ReadFailure::Unreadable(e) => "failed to read state: "@ + e@,
        ReadFailure::Malformed(e) => "invalid state JSON: "@ + e@,
    }
}

/// The message of a failed read of the metadata of session `id` when it is
/// resolved.
pub open spec fn metadata_failure(id: Seq<char>, f: ReadFailure) -> Seq<char> {
    match f {
        ReadFailure::NotFound => "session not found: "@ + id,
        ReadFailure::Unreadable(e) => "failed to read metadata: "@ + e@,
        ReadFailure::Malformed(e) => "invalid metadata JSON: "@ + e@,
    }
}

/// The message of a malformed session id.
pub open spec fn invalid_id_message(id: Seq<char>) -> Seq<char> {
    "invalid session ID: '"@ + id + "' (must be 32 hex characters)"@
}

impl SessionStore {
    /// The state of session `id`, given what reading its state file gave.
    pub fn state(&self, id: &str, read: Result<SessionState, ReadFailure>) -> (r: Result<SessionState, String>)
        ensures
            match read {
                Ok(s) => r == Ok::<SessionState, String>(s),
                Err(f) => r matches Err(m) && m@ == state_failure(id@, f),
            },
    {
        match read {
            Ok(s) => Ok(s),
            Err(ReadFailure::NotFound) => Err(missing_state_message(id)),
            Err(ReadFailure::Unreadable(e)) => Err(concat("failed to read state: ", e.as_str())),
            Err(ReadFailure::Malformed(e)) => Err(concat("invalid state JSON: ", e.as_str())),
        }
    }

    /// The run status of session `id`, given what reading its state file
    /// gave.
    pub fn status(&self, id: &str, read: Result<SessionState, ReadFailure>) -> (r: Result<Status, String>)
        ensures
            match read {
                Ok(s) => r == Ok::<Status, String>(s.status),
                Err(f) => r matches Err(m) && m@ == state_failure(id@, f),
            },
    {
        match self.state(id, read) {
            Ok(s) => Ok(s.status),
            Err(m) => Err(m),
        }
    }

    /// The worker of session `id`, given what reading its state file gave.
    pub fn pid(&self, id: &str, read: Result<SessionState, ReadFailure>) -> (r: Result<Option<u32>, String>)
        ensures
            match read {
                Ok(s) => r == Ok::<Option<u32>, String>(s.pid),
                Err(f) => r matches Err(m) && m@ == state_failure(id@, f),
            },
    {
        match self.state(id, read) {
            Ok(s) => Ok(s.pid),
            Err(m) => Err(m),
        }
    }
}

/// Resolves a session by id: a malformed id is refused before anything is
/// read; otherwise `read` is what reading its metadata file gave.
pub fn resolve(id: &str, read: Result<SessionMetadata, ReadFailure>) -> (r: Result<SessionMetadata, String>)
    ensures
        !id_format(id@) ==> (r matches Err(m) && m@ == invalid_id_message(id@)),
        id_format(id@) ==> match read {
            Ok(meta) => r == Ok::<SessionMetadata, String>(meta),
            Err(f) => r matches Err(m) && m@ == metadata_failure(id@, f),
        },
{
    if !is_id_format(id) {
        let mut m = concat("invalid session ID: '", id);
        push_str(&mut m, "' (must be 32 hex characters)");
        return Err(m);
    }
    match read {
        Ok(meta) => Ok(meta),
        Err(ReadFailure::NotFound) => Err(concat("session not found: ", id)),
        Err(ReadFailure::Unreadable(e)) => Err(concat("failed to read metadata: ", e.as_str())),
        Err(ReadFailure::Malformed(e)) => Err(concat("invalid metadata JSON: ", e.as_str())),
    }
}

} // verus!
