//! Configuration resources: the root config, policies, connections,
//! authentication profiles and prompts, and the rules they are checked by.
use crate::json::{json_members_view, lemma_members_view, Json};
use crate::paths::{join, join_path, is_absolute};
use crate::text::{
    blank, chars_of, concat, contains, contains_char, contains_seq, has_char, has_prefix, is_blank, push_str, starts_with,
    string_views,
};

pub mod directory;
pub mod hooks;
pub mod resolve;
pub use directory::ConfigDir;
use vstd::prelude::*;

verus! {

/// The root configuration: which policy sessions run under.
#[derive(Debug, Clone, PartialEq, Eq)]
pub struct RootConfig {
    pub policy: String,
}

/// A stored credential reference.
#[derive(Debug, Clone, PartialEq, Eq)]
pub struct AuthProfile {
    /// `api_key`, `bearer_token` or `openai_codex_oauth`.
    pub kind: String,
    pub value: Option<String>,
}

/// A model endpoint.
#[derive(Debug, PartialEq)]
pub struct Connection {
    pub interface: String,
    pub base_url: String,
    pub api_key: Option<String>,
    pub auth: Option<String>,
    pub auth_profile: Option<AuthProfile>,
    pub auth_storage: Option<String>,
    pub model: String,
    pub params: Vec<(String, Json)>,
    pub headers: Vec<(String, String)>,
}

/// What a policy allows tools to do.
#[derive(Debug, Clone, PartialEq, Eq)]
pub struct Permissions {
    pub tools: Vec<String>,
    pub paths: Vec<String>,
}

/// Token and step limits of a policy.
#[derive(Debug, Clone, Copy, PartialEq, Eq, Structural)]
pub struct PolicyLimits {
    pub token_warn_threshold: Option<u32>,
    pub token_hard_limit: Option<u32>,
    pub max_steps: Option<u32>,
}

/// A named policy: the connections to try, the prompt, permissions, limits
/// and environment of a session.
#[derive(Debug, Clone, PartialEq, Eq)]
pub struct Policy {
    pub connections: Vec<String>,
    pub prompt: Option<String>,
    pub permissions: Permissions,
    pub limits: PolicyLimits,
    pub env: Vec<(String, String)>,
}

impl Permissions {
    /// No tools and no paths.
    pub fn none() -> (p: Permissions)
        ensures
            p.tools@.len() == 0,
            p.paths@.len() == 0,
    {
        Permissions { tools: Vec::new(), paths: Vec::new() }
    }
}

impl PolicyLimits {
    /// No limits.
    pub fn unlimited() -> (l: PolicyLimits)
        ensures
            l.token_warn_threshold is None,
            l.token_hard_limit is None,
            l.max_steps is None,
    {
        PolicyLimits { token_warn_threshold: None, token_hard_limit: None, max_steps: None }
    }
}

/// A policy in mathematical form.
pub struct PolicyV {
    pub connections: Seq<Seq<char>>,
    pub prompt: Option<Seq<char>>,
    pub tools: Seq<Seq<char>>,
    pub paths: Seq<Seq<char>>,
    pub limits: PolicyLimits,
    pub env: Seq<(Seq<char>, Seq<char>)>,
}

/// The views of a list of string pairs.
pub open spec fn pair_views(v: Seq<(String, String)>) -> Seq<(Seq<char>, Seq<char>)> {
    v.map_values(|p: (String, String)| (p.0@, p.1@))
}

impl View for Policy {
    type V = PolicyV;

    open spec fn view(&self) -> PolicyV {
        PolicyV {
            connections: string_views(self.connections@),
            prompt: match self.prompt {
                Some(p) => Some(p@),
                None => None,
            },
            tools: string_views(self.permissions.tools@),
            paths: string_views(self.permissions.paths@),
            limits: self.limits,
            env: pair_views(self.env@),
        }
    }
}

impl Policy {
    /// No connections, no prompt, no permissions, no limits, no environment.
    pub open spec fn is_empty(&self) -> bool {
        &&& self.connections@.len() == 0
        &&& self.prompt is None
        &&& self.permissions.tools@.len() == 0
        &&& self.permissions.paths@.len() == 0
        &&& self.limits.token_warn_threshold is None
        &&& self.limits.token_hard_limit is None
        &&& self.limits.max_steps is None
        &&& self.env@.len() == 0
    }

    /// The empty policy.
    pub fn empty() -> (p: Policy)
        ensures
            p.is_empty(),
    {
        Policy {
            connections: Vec::new(),
            prompt: None,
            permissions: Permissions::none(),
            limits: PolicyLimits::unlimited(),
            env: Vec::new(),
        }
    }
}

/// A resource file as read from a configuration tree.
#[derive(Debug, PartialEq)]
pub enum Loaded<T> {
    /// Read and parsed.
    Found(T),
    /// Present but not readable; the reason.
    Unreadable(String),
    /// Read but not valid JSON of the resource's shape; the reason.
    Malformed(String),
}

/// The resource files of a configuration tree, keyed by resource name (the
/// file name without its extension). A name absent from a table has no
/// regular file.
#[derive(Debug, PartialEq)]
pub struct ConfigFiles {
    pub root: Option<Loaded<RootConfig>>,
    pub auth: Vec<(String, Loaded<AuthProfile>)>,
    pub connections: Vec<(String, Loaded<Connection>)>,
    pub policies: Vec<(String, Loaded<Policy>)>,
    pub prompts: Vec<(String, Loaded<String>)>,
}

/// Why a resource could not be loaded.
#[derive(Debug, PartialEq)]
pub enum ResourceLoadError {
    Missing { kind: String, path: String },
    Read { path: String, message: String },
    Parse { path: String, message: String },
    Invalid { path: String, message: String },
}

/// A load error in mathematical form.
pub enum LoadErrorV {
    Missing(Seq<char>, Seq<char>),
    Read(Seq<char>, Seq<char>),
    Parse(Seq<char>, Seq<char>),
    Invalid(Seq<char>, Seq<char>),
}

impl View for ResourceLoadError {
    type V = LoadErrorV;

    open spec fn view(&self) -> LoadErrorV {
        match self {
            ResourceLoadError::Missing { kind, path } => LoadErrorV::Missing(kind@, path@),
            ResourceLoadError::Read { path, message } => LoadErrorV::Read(path@, message@),
            ResourceLoadError::Parse { path, message } => LoadErrorV::Parse(path@, message@),
            ResourceLoadError::Invalid { path, message } => LoadErrorV::Invalid(path@, message@),
        }
    }
}

/// The text of a load error.
pub open spec fn error_text(e: LoadErrorV) -> Seq<char> {
    match e {
        LoadErrorV::Missing(kind, path) => "missing "@ + kind + " at "@ + path,
        LoadErrorV::Read(path, m) => "failed to read "@ + path + ": "@ + m,
        LoadErrorV::Parse(path, m) => "invalid JSON at "@ + path + ": "@ + m,
        LoadErrorV::Invalid(path, m) => "invalid resource at "@ + path + ": "@ + m,
    }
}

impl ResourceLoadError {
    /// The message of this error.
    pub fn to_text(&self) -> (s: String)
        ensures
            s@ == error_text(self@),
    {
        let (a, b, sep, c) = match self {
            ResourceLoadError::Missing { kind, path } => ("missing ", kind, " at ", path),
            ResourceLoadError::Read { path, message } => ("failed to read ", path, ": ", message),
            ResourceLoadError::Parse { path, message } => ("invalid JSON at ", path, ": ", message),
            ResourceLoadError::Invalid { path, message } => ("invalid resource at ", path, ": ", message),
        };
        let mut s = a.to_owned();
        push_str(&mut s, b.as_str());
        push_str(&mut s, sep);
        push_str(&mut s, c.as_str());
        s
    }
}

/// The entry named `name` of a table.
pub open spec fn lookup<T>(table: Seq<(String, Loaded<T>)>, name: Seq<char>) -> Option<Loaded<T>>
    decreases table.len(),
{
    if table.len() == 0 {
        None
    } else if table[0].0@ == name {
        Some(table[0].1)
    } else {
        lookup(table.skip(1), name)
    }
}

/// Reading the file of a resource: missing, unreadable, malformed or the
/// value.
pub open spec fn read_outcome<T>(entry: Option<Loaded<T>>, kind: Seq<char>, path: Seq<char>) -> Result<T, LoadErrorV> {
    match entry {
        None => Err(LoadErrorV::Missing(kind, path)),
        Some(Loaded::Unreadable(m)) => Err(LoadErrorV::Read(path, m@)),
        Some(Loaded::Malformed(m)) => Err(LoadErrorV::Parse(path, m@)),
        Some(Loaded::Found(v)) => Ok(v),
    }
}

/// A resource name is one non-empty path component without `..`.
pub open spec fn name_ok(name: Seq<char>) -> bool {
    &&& name.len() > 0
    &&& name != "."@
    &&& name != ".."@
    &&& !has_char(name, '/')
    &&& !has_char(name, '\\')
    &&& !contains_seq(name, ".."@)
}

/// The message of a bad resource name.
pub open spec fn bad_name_message() -> Seq<char> {
    "resource name must be a non-empty path component without '..'"@
}

/// Checks that `name` is a single, non-empty path component without `..`.
pub fn resource_name(name: &str) -> (r: Result<(), String>)
    ensures
        r is Ok <==> name_ok(name@),
        r matches Err(m) ==> m@ == bad_name_message(),
{
    let n = chars_of(name);
    let dots = chars_of("..");
    let dot = chars_of(".");
    let valid = n.len() > 0 && !crate::text::chars_eq(&n, &dot) && !crate::text::chars_eq(&n, &dots)
        && !contains_char(&n, '/') && !contains_char(&n, '\\') && !contains(&n, &dots);
    if valid {
        Ok(())
    } else {
        Err("resource name must be a non-empty path component without '..'".to_owned())
    }
}

/// `c` is an ASCII letter or digit, or `_`.
pub open spec fn is_name_char(c: char) -> bool {
    ('a' <= c <= 'z') || ('A' <= c <= 'Z') || ('0' <= c <= '9') || c == '_'
}

/// A credential reference: `env.` and a non-empty name of ASCII letters,
/// digits and `_`, or `file.` and an absolute path.
pub open spec fn reference_ok(value: Seq<char>) -> bool {
    ||| (has_prefix(value, "env."@) && value.len() > 4 && forall|i: int| 4 <= i < value.len() ==> is_name_char(#[trigger] value[i]))
    ||| (has_prefix(value, "file."@) && is_absolute(value.skip(5)))
}

/// The message of a bad credential reference.
pub open spec fn bad_reference_message() -> Seq<char> {
    "authentication value must be env.NAME or file./absolute/path"@
}

/// Checks a credential reference.
pub fn validate_reference(value: &str) -> (r: Result<(), String>)
    ensures
        r is Ok <==> reference_ok(value@),
        r matches Err(m) ==> m@ == bad_reference_message(),
{
    let v = chars_of(value);
    let env = chars_of("env.");
    let file = chars_of("file.");
    proof {
        reveal_strlit("env.");
        reveal_strlit("file.");
    }
    if starts_with(&v, &env) && v.len() > 4 {
        let mut i: usize = 4;
        let mut ok = true;
        while i < v.len()
            invariant
                4 <= i <= v@.len(),
                ok == forall|k: int| 4 <= k < i ==> is_name_char(#[trigger] v@[k]),
            decreases v@.len() - i,
        {
            let c = v[i];
            let good = ('a' <= c && c <= 'z') || ('A' <= c && c <= 'Z') || ('0' <= c && c <= '9') || c == '_';
            ok = ok && good;
            i = i + 1;
        }
        if ok {
            return Ok(());
        }
    }
    if starts_with(&v, &file) && v.len() > 5 && v[5] == '/' {
        return Ok(());
    }
    proof {
        if has_prefix(v@, "file."@) && is_absolute(v@.skip(5)) {
            assert(v@.skip(5)[0] == v@[5]);
        }
    }
    Err("authentication value must be env.NAME or file./absolute/path".to_owned())
}

/// The mathematical form of a load outcome.
pub open spec fn outcome<T>(r: Result<T, ResourceLoadError>) -> Result<T, LoadErrorV> {
    match r {
        Ok(v) => Ok(v),
        Err(e) => Err(e@),
    }
}

/// The mathematical form of a policy load outcome.
pub open spec fn policy_outcome(r: Result<Policy, ResourceLoadError>) -> Result<PolicyV, LoadErrorV> {
    match r {
        Ok(p) => Ok(p@),
        Err(e) => Err(e@),
    }
}

/// The file of resource `name` in directory `dir`, with extension `ext`.
pub open spec fn resource_path(dir: Seq<char>, name: Seq<char>, ext: Seq<char>) -> Seq<char> {
    join_path(dir, name + ext)
}

/// The checks of a parsed authentication profile.
pub open spec fn auth_checks(p: AuthProfile, path: Seq<char>) -> Result<AuthProfile, LoadErrorV> {
    let kind = p.kind@;
    if kind != "api_key"@ && kind != "bearer_token"@ && kind != "openai_codex_oauth"@ {
        Err(LoadErrorV::Invalid(path, "unknown authentication type: "@ + kind))
    } else if kind == "openai_codex_oauth"@ {
        if p.value is Some {
            Err(LoadErrorV::Invalid(path, "Codex OAuth profiles must not contain a credential value"@))
        } else {
            Ok(p)
        }
    } else {
        match p.value {
            None => Err(LoadErrorV::Invalid(path, "credential reference is required"@)),
            Some(v) => if reference_ok(v@) {
                Ok(p)
            } else {
                Err(LoadErrorV::Invalid(path, bad_reference_message()))
            },
        }
    }
}

/// Loading authentication profile `name` of the tree at `root`.
pub open spec fn auth_result(root: Seq<char>, table: Seq<(String, Loaded<AuthProfile>)>, name: Seq<char>) -> Result<
    AuthProfile,
    LoadErrorV,
> {
    let path = resource_path(join_path(root, "auth"@), name, ".json"@);
    if !name_ok(name) {
        Err(LoadErrorV::Invalid(path, bad_name_message()))
    } else {
        match read_outcome(lookup(table, name), "authentication profile"@, path) {
            Err(e) => Err(e),
            Ok(p) => auth_checks(p, path),
        }
    }
}

/// Loading the root configuration of the tree at `root`.
pub open spec fn root_result(root: Seq<char>, entry: Option<Loaded<RootConfig>>) -> Result<RootConfig, LoadErrorV> {
    let path = join_path(root, "config.json"@);
    match read_outcome(entry, "root config"@, path) {
        Err(e) => Err(e),
        Ok(r) => if is_blank(r.policy@) {
            Err(LoadErrorV::Invalid(path, "policy must be a non-empty resource name"@))
        } else if !name_ok(r.policy@) {
            Err(LoadErrorV::Invalid(path, bad_name_message()))
        } else {
            Ok(r)
        },
    }
}

/// Loading prompt `name` of the tree at `root`.
pub open spec fn prompt_result(root: Seq<char>, table: Seq<(String, Loaded<String>)>, name: Seq<char>) -> Result<
    Seq<char>,
    LoadErrorV,
> {
    let path = resource_path(join_path(root, "prompts"@), name, ".md"@);
    if !name_ok(name) {
        Err(LoadErrorV::Invalid(path, bad_name_message()))
    } else {
        match read_outcome(lookup(table, name), "prompt"@, path) {
            Err(e) => Err(e),
            Ok(t) => Ok(t@),
        }
    }
}

/// The checks of a parsed connection, its authentication profile included.
pub open spec fn connection_checks(
    c: Connection,
    path: Seq<char>,
    root: Seq<char>,
    auth: Seq<(String, Loaded<AuthProfile>)>,
) -> Result<(), LoadErrorV> {
    if is_blank(c.interface@) || is_blank(c.base_url@) || is_blank(c.model@) {
        Err(LoadErrorV::Invalid(path, "interface, base_url, and model are required"@))
    } else {
        match c.auth {
            None => Ok(()),
            Some(a) => if c.api_key is Some {
                Err(LoadErrorV::Invalid(path, "connection cannot contain both api_key and auth"@))
            } else {
                match auth_result(root, auth, a@) {
                    Err(e) => Err(LoadErrorV::Invalid(path, error_text(e))),
                    Ok(_) => Ok(()),
                }
            },
        }
    }
}

/// Loading connection `name` of the tree at `root` succeeds, or fails with
/// this error.
pub open spec fn connection_result(root: Seq<char>, files: ConfigFiles, name: Seq<char>) -> Result<(), LoadErrorV> {
    let path = resource_path(join_path(root, "connections"@), name, ".json"@);
    if !name_ok(name) {
        Err(LoadErrorV::Invalid(path, bad_name_message()))
    } else {
        match read_outcome(lookup(files.connections@, name), "connection"@, path) {
            Err(e) => Err(e),
            Ok(c) => connection_checks(c, path, root, files.auth@),
        }
    }
}

/// The first connection of `names` that fails to load, as its error.
pub open spec fn first_connection_error(root: Seq<char>, files: ConfigFiles, names: Seq<Seq<char>>) -> Option<LoadErrorV>
    decreases names.len(),
{
    if names.len() == 0 {
        None
    } else {
        match connection_result(root, files, names[0]) {
            Err(e) => Some(e),
            Ok(_) => first_connection_error(root, files, names.skip(1)),
        }
    }
}

/// Loading policy `name` of the tree at `root`: the file, its connections
/// and its prompt must all load.
pub open spec fn policy_result(root: Seq<char>, files: ConfigFiles, name: Seq<char>) -> Result<PolicyV, LoadErrorV> {
    let path = resource_path(join_path(root, "policies"@), name, ".json"@);
    if !name_ok(name) {
        Err(LoadErrorV::Invalid(path, bad_name_message()))
    } else {
        match read_outcome(lookup(files.policies@, name), "policy"@, path) {
            Err(e) => Err(e),
            Ok(p) => if p.connections@.len() == 0 {
                Err(LoadErrorV::Invalid(path, "connections must not be empty"@))
            } else {
                match first_connection_error(root, files, string_views(p.connections@)) {
                    Some(e) => Err(LoadErrorV::Invalid(path, error_text(e))),
                    None => match p.prompt {
                        Some(pr) => match prompt_result(root, files.prompts@, pr@) {
                            Err(e) => Err(LoadErrorV::Invalid(path, error_text(e))),
                            Ok(_) => Ok(p@),
                        },
                        None => Ok(p@),
                    },
                }
            },
        }
    }
}

/// Validating the tree at `root`: its root config and the policy it names.
pub open spec fn validate_result(root: Seq<char>, files: ConfigFiles) -> Result<(), LoadErrorV> {
    match root_result(root, files.root) {
        Err(e) => Err(e),
        Ok(r) => match policy_result(root, files, r.policy@) {
            Err(e) => Err(e),
            Ok(_) => Ok(()),
        },
    }
}

/// The entry named `name` of a table.
fn find_entry<'a, T>(table: &'a Vec<(String, Loaded<T>)>, name: &str) -> (r: Option<&'a Loaded<T>>)
    ensures
        match r {
            Some(x) => lookup(table@, name@) == Some(*x),
            None => lookup(table@, name@) is None,
        },
{
    let mut i: usize = 0;
    assert(table@.skip(0) =~= table@);
    while i < table.len()
        invariant
            i <= table@.len(),
            lookup(table@, name@) == lookup(table@.skip(i as int), name@),
        decreases table@.len() - i,
    {
        proof {
            assert(table@.skip(i as int).skip(1) =~= table@.skip(i + 1));
            assert(table@.skip(i as int)[0] == table@[i as int]);
        }
        if crate::text::str_eq(table[i].0.as_str(), name) {
            return Some(&table[i].1);
        }
        i = i + 1;
    }
    None
}

/// Reads the file of a resource from its table.
fn read_entry<'a, T>(table: &'a Vec<(String, Loaded<T>)>, name: &str, kind: &str, path: &String) -> (r: Result<
    &'a T,
    ResourceLoadError,
>)
    ensures
        match r {
            Ok(v) => read_outcome(lookup(table@, name@), kind@, path@) == Ok::<T, LoadErrorV>(*v),
            Err(e) => read_outcome(lookup(table@, name@), kind@, path@) == Err::<T, LoadErrorV>(e@),
        },
{
    match find_entry(table, name) {
        None => Err(ResourceLoadError::Missing { kind: kind.to_owned(), path: path.clone() }),
        Some(Loaded::Unreadable(m)) => Err(ResourceLoadError::Read { path: path.clone(), message: m.clone() }),
        Some(Loaded::Malformed(m)) => Err(ResourceLoadError::Parse { path: path.clone(), message: m.clone() }),
        Some(Loaded::Found(v)) => Ok(v),
    }
}

/// The file name of a resource.
fn file_name(name: &str, ext: &str) -> (r: String)
    ensures
        r@ == name@ + ext@,
{
    concat(name, ext)
}

impl AuthProfile {
    /// A copy of this profile.
    pub fn copy(&self) -> (r: AuthProfile)
        ensures
            r == *self,
    {
        AuthProfile {
            kind: self.kind.clone(),
            value: match &self.value {
                Some(v) => Some(v.clone()),
                None => None,
            },
        }
    }
}

impl RootConfig {
    /// A copy of this configuration.
    pub fn copy(&self) -> (r: RootConfig)
        ensures
            r == *self,
    {
        RootConfig { policy: self.policy.clone() }
    }
}

/// A copy of a list of strings.
pub fn copy_strings(v: &Vec<String>) -> (r: Vec<String>)
    ensures
        r@ == v@,
{
    let mut out: Vec<String> = Vec::new();
    let mut i: usize = 0;
    while i < v.len()
        invariant
            i <= v@.len(),
            out@ == v@.take(i as int),
        decreases v@.len() - i,
    {
        out.push(v[i].clone());
        i = i + 1;
        assert(out@ =~= v@.take(i as int));
    }
    assert(v@.take(i as int) =~= v@);
    out
}

impl Policy {
    /// A copy of this policy.
    pub fn copy(&self) -> (r: Policy)
        ensures
            r@ == self@,
    {
        let mut env: Vec<(String, String)> = Vec::new();
        let mut i: usize = 0;
        while i < self.env.len()
            invariant
                i <= self.env@.len(),
                env@ == self.env@.take(i as int),
            decreases self.env@.len() - i,
        {
            env.push((self.env[i].0.clone(), self.env[i].1.clone()));
            i = i + 1;
            assert(env@ =~= self.env@.take(i as int));
        }
        assert(self.env@.take(i as int) =~= self.env@);
        let r = Policy {
            connections: copy_strings(&self.connections),
            prompt: match &self.prompt {
                Some(p) => Some(p.clone()),
                None => None,
            },
            permissions: Permissions {
                tools: copy_strings(&self.permissions.tools),
                paths: copy_strings(&self.permissions.paths),
            },
            limits: self.limits,
            env,
        };
        assert(r@.connections =~= self@.connections);
        assert(r@.tools =~= self@.tools);
        assert(r@.paths =~= self@.paths);
        assert(r@.env =~= self@.env);
        r
    }
}

impl ConfigDir {
    /// Loads authentication profile `name`: a valid name, a readable and
    /// well-formed file, a known type, and a credential reference where the
    /// type needs one (none for Codex OAuth).
    pub fn load_auth(&self, files: &ConfigFiles, name: &str) -> (r: Result<AuthProfile, ResourceLoadError>)
        ensures
            outcome(r) == auth_result(self.0@, files.auth@, name@),
    {
        let dir = self.auth_path();
        let path = join(dir.as_str(), file_name(name, ".json").as_str());
        if let Err(message) = resource_name(name) {
            return Err(ResourceLoadError::Invalid { path, message });
        }
        let value = match read_entry(&files.auth, name, "authentication profile", &path) {
            Ok(v) => v.copy(),
            Err(e) => {
                return Err(e);
            },
        };
        let kind = value.kind.as_str();
        let api = crate::text::str_eq(kind, "api_key");
        let bearer = crate::text::str_eq(kind, "bearer_token");
        let codex = crate::text::str_eq(kind, "openai_codex_oauth");
        if !api && !bearer && !codex {
            return Err(ResourceLoadError::Invalid { path, message: concat("unknown authentication type: ", kind) });
        }
        if codex {
            if value.value.is_some() {
                return Err(
                    ResourceLoadError::Invalid {
                        path,
                        message: "Codex OAuth profiles must not contain a credential value".to_owned(),
                    },
                );
            }
        } else {
            match &value.value {
                None => {
                    return Err(
                        ResourceLoadError::Invalid { path, message: "credential reference is required".to_owned() },
                    );
                },
                Some(reference) => {
                    if let Err(message) = validate_reference(reference.as_str()) {
                        return Err(ResourceLoadError::Invalid { path, message });
                    }
                },
            }
        }
        Ok(value)
    }

    /// Loads the root configuration: a readable, well-formed `config.json`
    /// naming a policy by a valid, non-blank resource name.
    pub fn load_root(&self, files: &ConfigFiles) -> (r: Result<RootConfig, ResourceLoadError>)
        ensures
            outcome(r) == root_result(self.0@, files.root),
    {
        let path = self.root_path();
        let root = match &files.root {
            None => {
                return Err(ResourceLoadError::Missing { kind: "root config".to_owned(), path });
            },
            Some(Loaded::Unreadable(m)) => {
                return Err(ResourceLoadError::Read { path, message: m.clone() });
            },
            Some(Loaded::Malformed(m)) => {
                return Err(ResourceLoadError::Parse { path, message: m.clone() });
            },
            Some(Loaded::Found(r)) => r.copy(),
        };
        if blank(root.policy.as_str()) {
            return Err(
                ResourceLoadError::Invalid { path, message: "policy must be a non-empty resource name".to_owned() },
            );
        }
        if let Err(message) = resource_name(root.policy.as_str()) {
            return Err(ResourceLoadError::Invalid { path, message });
        }
        Ok(root)
    }

    /// Loads prompt `name`: a valid name and a readable `.md` file.
    pub fn load_prompt(&self, files: &ConfigFiles, name: &str) -> (r: Result<String, ResourceLoadError>)
        ensures
            match r {
                Ok(t) => prompt_result(self.0@, files.prompts@, name@) == Ok::<Seq<char>, LoadErrorV>(t@),
                Err(e) => prompt_result(self.0@, files.prompts@, name@) == Err::<Seq<char>, LoadErrorV>(e@),
            },
    {
        let dir = self.prompts_path();
        let path = join(dir.as_str(), file_name(name, ".md").as_str());
        if let Err(message) = resource_name(name) {
            return Err(ResourceLoadError::Invalid { path, message });
        }
        match read_entry(&files.prompts, name, "prompt", &path) {
            Ok(t) => Ok(t.clone()),
            Err(e) => Err(e),
        }
    }

    /// Checks connection `name`: a valid name, a readable and well-formed
    /// file, non-blank interface, base URL and model, and at most one of an
    /// inline key and an authentication profile, which must itself load.
    pub fn check_connection(&self, files: &ConfigFiles, name: &str) -> (r: Result<(), ResourceLoadError>)
        ensures
            outcome(r) == connection_result(self.0@, *files, name@),
    {
        let dir = self.connections_path();
        let path = join(dir.as_str(), file_name(name, ".json").as_str());
        if let Err(message) = resource_name(name) {
            return Err(ResourceLoadError::Invalid { path, message });
        }
        let c = match read_entry(&files.connections, name, "connection", &path) {
            Ok(c) => c,
            Err(e) => {
                return Err(e);
            },
        };
        if blank(c.interface.as_str()) || blank(c.base_url.as_str()) || blank(c.model.as_str()) {
            return Err(
                ResourceLoadError::Invalid { path, message: "interface, base_url, and model are required".to_owned() },
            );
        }
        match &c.auth {
            None => Ok(()),
            Some(a) => {
                if c.api_key.is_some() {
                    return Err(
                        ResourceLoadError::Invalid {
                            path,
                            message: "connection cannot contain both api_key and auth".to_owned(),
                        },
                    );
                }
                match self.load_auth(files, a.as_str()) {
                    Err(e) => Err(ResourceLoadError::Invalid { path, message: e.to_text() }),
                    Ok(_) => Ok(()),
                }
            },
        }
    }

    /// Loads policy `name`: a valid name, a readable and well-formed file with
    /// at least one connection, every connection loadable, and its prompt, if
    /// any, loadable.
    #[verifier::loop_isolation(false)]
    pub fn load_policy(&self, files: &ConfigFiles, name: &str) -> (r: Result<Policy, ResourceLoadError>)
        ensures
            policy_outcome(r) == policy_result(self.0@, *files, name@),
    {
        let dir = self.policies_path();
        let path = join(dir.as_str(), file_name(name, ".json").as_str());
        if let Err(message) = resource_name(name) {
            return Err(ResourceLoadError::Invalid { path, message });
        }
        let value = match read_entry(&files.policies, name, "policy", &path) {
            Ok(p) => p.copy(),
            Err(e) => {
                return Err(e);
            },
        };
        if value.connections.len() == 0 {
            return Err(ResourceLoadError::Invalid { path, message: "connections must not be empty".to_owned() });
        }
        let mut i: usize = 0;
        let ghost names = string_views(value.connections@);
        assert(names.skip(0) =~= names);
        while i < value.connections.len()
            invariant
                i <= value.connections@.len(),
                names == string_views(value.connections@),
                first_connection_error(self.0@, *files, names) == first_connection_error(
                    self.0@,
                    *files,
                    names.skip(i as int),
                ),
            decreases value.connections@.len() - i,
        {
            proof {
                assert(names.skip(i as int).skip(1) =~= names.skip(i + 1));
                assert(names.skip(i as int)[0] == value.connections@[i as int]@);
            }
            if let Err(e) = self.check_connection(files, value.connections[i].as_str()) {
                return Err(ResourceLoadError::Invalid { path, message: e.to_text() });
            }
            i = i + 1;
        }
        if let Some(prompt) = &value.prompt {
            if let Err(e) = self.load_prompt(files, prompt.as_str()) {
                return Err(ResourceLoadError::Invalid { path, message: e.to_text() });
            }
        }
        Ok(value)
    }

    /// Validates the tree: its root configuration and the policy it names.
    pub fn validate(&self, files: &ConfigFiles) -> (r: Result<(), ResourceLoadError>)
        ensures
            outcome(r) == validate_result(self.0@, *files),
    {
        let root = self.load_root(files)?;
        match self.load_policy(files, root.policy.as_str()) {
            Err(e) => Err(e),
            Ok(_) => Ok(()),
        }
    }
}

/// A connection in mathematical form.
pub struct ConnectionV {
    pub interface: Seq<char>,
    pub base_url: Seq<char>,
    pub api_key: Option<Seq<char>>,
    pub auth: Option<Seq<char>>,
    pub auth_profile: Option<AuthProfile>,
    pub auth_storage: Option<Seq<char>>,
    pub model: Seq<char>,
    pub params: Seq<(Seq<char>, crate::json::JsonV)>,
    pub headers: Seq<(Seq<char>, Seq<char>)>,
}

impl View for Connection {
    type V = ConnectionV;

    open spec fn view(&self) -> ConnectionV {
        ConnectionV {
            interface: self.interface@,
            base_url: self.base_url@,
            api_key: crate::text::opt_chars(self.api_key),
            auth: crate::text::opt_chars(self.auth),
            auth_profile: self.auth_profile,
            auth_storage: crate::text::opt_chars(self.auth_storage),
            model: self.model@,
            params: json_members_view(self.params@),
            headers: pair_views(self.headers@),
        }
    }
}

/// A copy of a list of string pairs.
pub fn copy_pairs(v: &Vec<(String, String)>) -> (r: Vec<(String, String)>)
    ensures
        r@ == v@,
{
    let mut out: Vec<(String, String)> = Vec::new();
    let mut i: usize = 0;
    while i < v.len()
        invariant
            i <= v@.len(),
            out@ == v@.take(i as int),
        decreases v@.len() - i,
    {
        out.push((v[i].0.clone(), v[i].1.clone()));
        i = i + 1;
        assert(out@ =~= v@.take(i as int));
    }
    assert(v@.take(i as int) =~= v@);
    out
}

/// A copy of an object's members.
pub fn copy_members(v: &Vec<(String, Json)>) -> (r: Vec<(String, Json)>)
    ensures
        json_members_view(r@) == json_members_view(v@),
{
    let mut out: Vec<(String, Json)> = Vec::new();
    let mut i: usize = 0;
    proof {
        lemma_members_view(v@);
        lemma_members_view(out@);
    }
    while i < v.len()
        invariant
            i <= v@.len(),
            out@.len() == i,
            json_members_view(v@).len() == v@.len(),
            forall|k: int| 0 <= k < v@.len() ==> #[trigger] json_members_view(v@)[k] == (v@[k].0@, v@[k].1@),
            forall|k: int| 0 <= k < i ==> (#[trigger] out@[k]).0@ == v@[k].0@ && out@[k].1@ == v@[k].1@,
        decreases v@.len() - i,
    {
        out.push((v[i].0.clone(), v[i].1.copy()));
        i = i + 1;
    }
    proof {
        lemma_members_view(out@);
        assert(json_members_view(out@) =~= json_members_view(v@));
    }
    out
}

impl Connection {
    /// A copy of this connection.
    pub fn copy(&self) -> (r: Connection)
        ensures
            r@ == self@,
    {
        Connection {
            interface: self.interface.clone(),
            base_url: self.base_url.clone(),
            api_key: copy_opt_string(&self.api_key),
            auth: copy_opt_string(&self.auth),
            auth_profile: match &self.auth_profile {
                Some(p) => Some(p.copy()),
                None => None,
            },
            auth_storage: copy_opt_string(&self.auth_storage),
            model: self.model.clone(),
            params: copy_members(&self.params),
            headers: copy_pairs(&self.headers),
        }
    }
}

/// A copy of an optional string.
pub fn copy_opt_string(v: &Option<String>) -> (r: Option<String>)
    ensures
        r == *v,
{
    match v {
        Some(s) => Some(s.clone()),
        None => None,
    }
}

/// The connection named `name` as loaded from the tree at `root`: its file's
/// value with the auth directory as credential storage and, where it names
/// an authentication profile, that profile.
pub open spec fn loaded_connection(root: Seq<char>, files: ConfigFiles, name: Seq<char>) -> Option<ConnectionV> {
    let path = resource_path(join_path(root, "connections"@), name, ".json"@);
    match read_outcome(lookup(files.connections@, name), "connection"@, path) {
        Ok(c) => Some(
            ConnectionV {
                auth_storage: Some(join_path(root, "auth"@)),
                auth_profile: match c.auth {
                    Some(a) => match auth_result(root, files.auth@, a@) {
                        Ok(p) => Some(p),
                        Err(_) => c.auth_profile,
                    },
                    None => c.auth_profile,
                },
                ..c@
            },
        ),
        Err(_) => None,
    }
}

impl ConfigDir {
    /// Loads connection `name`: the checks of `check_connection`, then its
    /// value with the auth directory as credential storage and its
    /// authentication profile, if it names one.
    pub fn load_connection(&self, files: &ConfigFiles, name: &str) -> (r: Result<Connection, ResourceLoadError>)
        ensures
            match r {
                Ok(c) => connection_result(self.0@, *files, name@) is Ok && loaded_connection(self.0@, *files, name@)
                    == Some(c@),
                Err(e) => connection_result(self.0@, *files, name@) == Err::<(), LoadErrorV>(e@),
            },
    {
        if let Err(e) = self.check_connection(files, name) {
            return Err(e);
        }
        let dir = self.connections_path();
        let path = join(dir.as_str(), file_name(name, ".json").as_str());
        let found = match read_entry(&files.connections, name, "connection", &path) {
            Ok(c) => c,
            Err(e) => {
                return Err(e);
            },
        };
        let mut value = found.copy();
        value.auth_storage = Some(self.auth_path());
        let profile = match &found.auth {
            Some(a) => match self.load_auth(files, a.as_str()) {
                Ok(p) => Some(p),
                Err(e) => {
                    return Err(e);
                },
            },
            None => None,
        };
        if profile.is_some() {
            value.auth_profile = profile;
        }
        Ok(value)
    }
}

} // verus!
