//! The provider side of a run: decoding streamed replies, accounting for
//! their token usage, and deciding what a turn does next.
use crate::config::Policy;
use crate::json::{Json, JsonV};
use crate::model::Usage;
use crate::text::{concat, str_eq, string_views};
use vstd::prelude::*;

pub mod command;
pub mod defs;
pub mod dispatch;
pub mod lifecycle;
pub mod request;
pub mod sse;
pub mod transport;

verus! {

/// One decoded element of a streamed provider reply.
#[derive(Debug, PartialEq)]
pub enum StreamEvent {
    Text(String),
    Usage(Usage),
    ToolCall { name: String, input: Json },
    Done,
    Malformed(String),
}

/// A stream event in mathematical form.
pub enum StreamEventV {
    Text(Seq<char>),
    Usage(Usage),
    ToolCall(Seq<char>, JsonV),
    Done,
    Malformed(Seq<char>),
}

impl View for StreamEvent {
    type V = StreamEventV;

    open spec fn view(&self) -> StreamEventV {
        match self {
            StreamEvent::Text(t) => StreamEventV::Text(t@),
            StreamEvent::Usage(u) => StreamEventV::Usage(*u),
            StreamEvent::ToolCall { name, input } => StreamEventV::ToolCall(name@, input@),
            StreamEvent::Done => StreamEventV::Done,
            StreamEvent::Malformed(m) => StreamEventV::Malformed(m@),
        }
    }
}

/// The views of a sequence of stream events.
pub open spec fn events_view(v: Seq<StreamEvent>) -> Seq<StreamEventV> {
    v.map_values(|e: StreamEvent| e@)
}

/// The provider that answers without a model.
#[derive(Debug, Clone, Copy, PartialEq, Eq, Structural)]
pub struct LocalProvider;

impl LocalProvider {
    /// Echoes the prompt: `local client: ` and the prompt.
    pub fn reply(&self, prompt: &str) -> (r: String)
        ensures
            r@ == "local client: "@ + prompt@,
    {
        concat("local client: ", prompt)
    }
}

/// Whether the policy lists tool `name`.
pub fn tool_allowed(policy: &Policy, name: &str) -> (r: bool)
    ensures
        r == string_views(policy.permissions.tools@).contains(name@),
{
    let tools = &policy.permissions.tools;
    let ghost views = string_views(tools@);
    let mut i: usize = 0;
    while i < tools.len()
        invariant
            i <= tools@.len(),
            views == string_views(tools@),
            views == string_views(policy.permissions.tools@),
            forall|k: int| 0 <= k < i ==> #[trigger] views[k] != name@,
        decreases tools@.len() - i,
    {
        assert(views[i as int] == tools@[i as int]@);
        if str_eq(tools[i].as_str(), name) {
            assert(views[i as int] == name@);
            assert(views.contains(views[i as int]));
            return true;
        }
        i = i + 1;
    }
    proof {
        if views.contains(name@) {
            let k = choose|k: int| 0 <= k < views.len() && views[k] == name@;
            assert(views[k] != name@);
        }
    }
    false
}

} // verus!
