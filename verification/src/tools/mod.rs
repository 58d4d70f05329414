//! Tools a model may call: which calls a policy permits, where they may
//! reach, what a read returns, and the file edit algorithm.
use crate::text::{concat, str_eq, string_views};
use vstd::prelude::*;

pub mod fs_edit;
pub mod fs_read;
pub mod scope;

use scope::{Environment, ScopeSet};
pub use crate::provider::defs::tool_definitions;

verus! {

/// What a tool call runs with: its working directory and environment, the
/// path exceptions in force, and the tools and paths the policy allows.
pub struct ToolContext {
    pub working_dir: String,
    pub env: Environment,
    pub global_scope_set: ScopeSet,
    pub session_scope_set: ScopeSet,
    pub allowed_tools: Vec<String>,
    pub allowed_paths: Vec<String>,
}

impl ToolContext {
    /// The context of the tool calls of a session's loop: the policy's
    /// permitted tools and paths, and no path exception at all; a session's
    /// path restrictions narrow the permissions and never become
    /// exceptions.
    pub fn for_loop(working_dir: String, env: Environment, permissions: &crate::config::Permissions) -> (c: ToolContext)
        ensures
            c.working_dir == working_dir,
            c.env == env,
            c.global_scope_set.patterns@.len() == 0,
            c.session_scope_set.patterns@.len() == 0,
            string_views(c.allowed_tools@) == string_views(permissions.tools@),
            string_views(c.allowed_paths@) == string_views(permissions.paths@),
    {
        ToolContext {
            working_dir,
            env,
            global_scope_set: ScopeSet::empty(),
            session_scope_set: ScopeSet::empty(),
            allowed_tools: crate::config::copy_strings(&permissions.tools),
            allowed_paths: crate::config::copy_strings(&permissions.paths),
        }
    }
}

/// The tools there are.
#[derive(Debug, Clone, Copy, PartialEq, Eq, Structural)]
pub enum ToolKind {
    Bash,
    FsRead,
    FsEdit,
}

/// The tool called `name`, if there is one.
pub open spec fn tool_named(name: Seq<char>) -> Option<ToolKind> {
    if name == "bash"@ {
        Some(ToolKind::Bash)
    } else if name == "fs_read"@ {
        Some(ToolKind::FsRead)
    } else if name == "fs_edit"@ {
        Some(ToolKind::FsEdit)
    } else {
        None
    }
}

/// A tool list permits `name`: it is empty, or lists the tool or `*`.
pub open spec fn tool_permitted(name: Seq<char>, allowed: Seq<Seq<char>>) -> bool {
    allowed.len() == 0 || allowed.contains(name) || allowed.contains("*"@)
}

/// Whether a list holds `name` or `*`.
fn lists_tool(allowed: &Vec<String>, name: &str) -> (r: bool)
    ensures
        r == (string_views(allowed@).contains(name@) || string_views(allowed@).contains("*"@)),
{
    let ghost views = string_views(allowed@);
    let mut i: usize = 0;
    while i < allowed.len()
        invariant
            i <= allowed@.len(),
            views == string_views(allowed@),
            forall|k: int| 0 <= k < i ==> #[trigger] views[k] != name@ && views[k] != "*"@,
        decreases allowed@.len() - i,
    {
        assert(views[i as int] == allowed@[i as int]@);
        if str_eq(allowed[i].as_str(), name) || str_eq(allowed[i].as_str(), "*") {
            assert(views.contains(views[i as int]));
            return true;
        }
        i = i + 1;
    }
    proof {
        if views.contains(name@) {
            let k = choose|k: int| 0 <= k < views.len() && views[k] == name@;
            assert(views[k] != name@);
        }
        if views.contains("*"@) {
            let k = choose|k: int| 0 <= k < views.len() && views[k] == "*"@;
            assert(views[k] != "*"@);
        }
    }
    false
}

/// Checks a tool call against the policy's tool list and names the tool to
/// run: a tool the list does not permit is denied, an unknown one refused.
pub fn execute_tool_with_permissions(name: &str, context: &ToolContext) -> (r: Result<ToolKind, String>)
    ensures
        match r {
            Ok(k) => tool_permitted(name@, string_views(context.allowed_tools@)) && tool_named(name@) == Some(k),
            Err(m) => if !tool_permitted(name@, string_views(context.allowed_tools@)) {
                m@ == "tool denied by policy: "@ + name@
            } else {
                tool_named(name@) is None && m@ == "unknown tool: "@ + name@
            },
        },
{
    if context.allowed_tools.len() > 0 && !lists_tool(&context.allowed_tools, name) {
        return Err(concat("tool denied by policy: ", name));
    }
    if str_eq(name, "bash") {
        Ok(ToolKind::Bash)
    } else if str_eq(name, "fs_read") {
        Ok(ToolKind::FsRead)
    } else if str_eq(name, "fs_edit") {
        Ok(ToolKind::FsEdit)
    } else {
        Err(concat("unknown tool: ", name))
    }
}

/// Names the tool to run for a call made with no tool list in force.
pub fn execute_tool(name: &str) -> (r: Result<ToolKind, String>)
    ensures
        match r {
            Ok(k) => tool_named(name@) == Some(k),
            Err(m) => tool_named(name@) is None && m@ == "unknown tool: "@ + name@,
        },
{
    if str_eq(name, "bash") {
        Ok(ToolKind::Bash)
    } else if str_eq(name, "fs_read") {
        Ok(ToolKind::FsRead)
    } else if str_eq(name, "fs_edit") {
        Ok(ToolKind::FsEdit)
    } else {
        Err(concat("unknown tool: ", name))
    }
}

} // verus!
