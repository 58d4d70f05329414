//! The layout of a configuration directory.
use crate::paths::{join, join_path};
use vstd::prelude::*;

verus! {

/// Root of a complete, self-contained configuration tree.
#[derive(Debug, Clone, PartialEq, Eq)]
pub struct ConfigDir(pub String);

impl ConfigDir {
    /// A configuration tree rooted at `path`.
    pub fn new(path: String) -> (d: ConfigDir)
        ensures
            d.0 == path,
    {
        ConfigDir(path)
    }

    /// The root of the tree.
    pub fn path(&self) -> (p: &str)
        ensures
            p@ == self.0@,
    {
        self.0.as_str()
    }

    /// `config.json` under the root.
    pub fn root_path(&self) -> (p: String)
        ensures
            p@ == join_path(self.0@, "config.json"@),
    {
        join(self.0.as_str(), "config.json")
    }

    /// `connections` under the root.
    pub fn connections_path(&self) -> (p: String)
        ensures
            p@ == join_path(self.0@, "connections"@),
    {
        join(self.0.as_str(), "connections")
    }

    /// `policies` under the root.
    pub fn policies_path(&self) -> (p: String)
        ensures
            p@ == join_path(self.0@, "policies"@),
    {
        join(self.0.as_str(), "policies")
    }

    /// `prompts` under the root.
    pub fn prompts_path(&self) -> (p: String)
        ensures
            p@ == join_path(self.0@, "prompts"@),
    {
        join(self.0.as_str(), "prompts")
    }

    /// `sessions` under the root.
    pub fn sessions_path(&self) -> (p: String)
        ensures
            p@ == join_path(self.0@, "sessions"@),
    {
        join(self.0.as_str(), "sessions")
    }

    /// `auth` under the root.
    pub fn auth_path(&self) -> (p: String)
        ensures
            p@ == join_path(self.0@, "auth"@),
    {
        join(self.0.as_str(), "auth")
    }
}

} // verus!
