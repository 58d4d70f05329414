//! Turn hooks: the executables a policy runs when a turn starts or stops.
use crate::paths::{join, join_path};
use crate::text::{blank, concat, is_blank, string_views};
use vstd::prelude::*;

verus! {

/// The moments at which hooks run.
#[derive(Debug, Clone, Copy, PartialEq, Eq, Hash, Structural)]
pub enum HookEvent {
    TurnStart,
    TurnStop,
}

/// The external name of a hook event.
pub open spec fn event_name(e: HookEvent) -> Seq<char> {
    match e {
        HookEvent::TurnStart => "turn-start"@,
        HookEvent::TurnStop => "turn-stop"@,
    }
}

impl HookEvent {
    /// The external name of this event (`turn-start`, `turn-stop`).
    pub fn name(&self) -> (s: &'static str)
        ensures
            s@ == event_name(*self),
    {
        match self {
            HookEvent::TurnStart => "turn-start",
            HookEvent::TurnStop => "turn-stop",
        }
    }
}

/// The hook executables of each event, in the order they run.
#[derive(Debug, Clone, PartialEq, Eq)]
pub struct HookConfiguration {
    pub turn_start: Vec<String>,
    pub turn_stop: Vec<String>,
}

/// The outcome a hook reports.
#[derive(Debug, Clone, Copy, PartialEq, Eq, Structural)]
pub enum HookStatus {
    Running,
    Succeeded,
    Failed,
    Cancelled,
    BudgetExceeded,
}

/// What a hook is told about the turn it runs for.
#[derive(Debug, Clone, PartialEq, Eq)]
pub struct HookPayload {
    pub event: HookEvent,
    pub session_id: String,
    pub timestamp: String,
    pub status: HookStatus,
    pub working_dir: String,
    pub config_dir: String,
    pub session_dir: String,
    pub error: Option<String>,
    pub reason: Option<String>,
}

/// Every entry of `entries` holds a non-whitespace character.
pub open spec fn entries_ok(entries: Seq<Seq<char>>) -> bool {
    forall|i: int| 0 <= i < entries.len() ==> !is_blank(#[trigger] entries[i])
}

/// The message for a blank entry of `event`.
pub open spec fn empty_entry_message(event: HookEvent) -> Seq<char> {
    event_name(event) + " hook entries must not be empty"@
}

/// The entries of `event`, as the configuration lists them.
pub open spec fn entries_of(c: HookConfiguration, event: HookEvent) -> Seq<Seq<char>> {
    match event {
        HookEvent::TurnStart => string_views(c.turn_start@),
        HookEvent::TurnStop => string_views(c.turn_stop@),
    }
}

/// Each entry resolved against `working_dir`: absolute entries stay, relative
/// ones are joined onto it.
pub open spec fn resolved(entries: Seq<Seq<char>>, working_dir: Seq<char>) -> Seq<Seq<char>> {
    entries.map_values(|e: Seq<char>| join_path(working_dir, e))
}

/// Resolving keeps every entry, in order: there are as many paths as
/// entries, and path `i` is entry `i` joined onto the working directory.
pub proof fn law_each_entry_resolved(entries: Seq<Seq<char>>, working_dir: Seq<char>)
    ensures
        resolved(entries, working_dir).len() == entries.len(),
        forall|i: int|
            0 <= i < entries.len() ==> #[trigger] resolved(entries, working_dir)[i] == join_path(working_dir, entries[i]),
{
}

/// Whether every entry of a list is non-blank.
fn all_present(entries: &Vec<String>) -> (r: bool)
    ensures
        r == entries_ok(string_views(entries@)),
{
    let mut i: usize = 0;
    while i < entries.len()
        invariant
            i <= entries@.len(),
            forall|k: int| 0 <= k < i ==> !is_blank(#[trigger] string_views(entries@)[k]),
        decreases entries@.len() - i,
    {
        if blank(entries[i].as_str()) {
            assert(string_views(entries@)[i as int] == entries@[i as int]@);
            return false;
        }
        i = i + 1;
    }
    true
}

impl HookConfiguration {
    /// No hooks.
    pub fn none() -> (c: HookConfiguration)
        ensures
            c.turn_start@.len() == 0,
            c.turn_stop@.len() == 0,
    {
        HookConfiguration { turn_start: Vec::new(), turn_stop: Vec::new() }
    }

    /// Every entry must name something: a blank entry of turn-start is
    /// reported first, then one of turn-stop.
    pub fn validate(&self) -> (r: Result<(), String>)
        ensures
            r is Ok <==> (entries_ok(entries_of(*self, HookEvent::TurnStart)) && entries_ok(
                entries_of(*self, HookEvent::TurnStop),
            )),
            r matches Err(m) ==> m@ == empty_entry_message(
                if entries_ok(entries_of(*self, HookEvent::TurnStart)) {
                    HookEvent::TurnStop
                } else {
                    HookEvent::TurnStart
                },
            ),
    {
        if !all_present(&self.turn_start) {
            return Err(concat(HookEvent::TurnStart.name(), " hook entries must not be empty"));
        }
        if !all_present(&self.turn_stop) {
            return Err(concat(HookEvent::TurnStop.name(), " hook entries must not be empty"));
        }
        Ok(())
    }

    /// The executables of `event`, relative entries resolved against
    /// `working_dir`, in the configured order.
    pub fn paths_for(&self, event: HookEvent, working_dir: &str) -> (r: Vec<String>)
        ensures
            string_views(r@) == resolved(entries_of(*self, event), working_dir@),
            r@.len() == match event {
                HookEvent::TurnStart => self.turn_start@.len(),
                HookEvent::TurnStop => self.turn_stop@.len(),
            },
            forall|i: int|
                0 <= i < r@.len() ==> #[trigger] r@[i]@ == join_path(
                    working_dir@,
                    match event {
                        HookEvent::TurnStart => self.turn_start@[i]@,
                        HookEvent::TurnStop => self.turn_stop@[i]@,
                    },
                ),
    {
        let entries = match event {
            HookEvent::TurnStart => &self.turn_start,
            HookEvent::TurnStop => &self.turn_stop,
        };
        let mut out: Vec<String> = Vec::new();
        let mut i: usize = 0;
        while i < entries.len()
            invariant
                i <= entries@.len(),
                string_views(entries@) == entries_of(*self, event),
                string_views(out@) == resolved(string_views(entries@).take(i as int), working_dir@),
            decreases entries@.len() - i,
        {
            let ghost before = out@;
            let p = join(working_dir, entries[i].as_str());
            out.push(p);
            proof {
                let names = string_views(entries@);
                assert(names.take(i + 1) =~= names.take(i as int).push(entries@[i as int]@));
                assert(string_views(out@) =~= string_views(before).push(p@));
                assert(resolved(names.take(i + 1), working_dir@) =~= resolved(names.take(i as int), working_dir@).push(
                    join_path(working_dir@, entries@[i as int]@),
                ));
            }
            i = i + 1;
        }
        assert(string_views(entries@).take(i as int) =~= string_views(entries@));
        proof {
            law_each_entry_resolved(string_views(entries@), working_dir@);
            assert forall|k: int| 0 <= k < out@.len() implies #[trigger] out@[k]@ == join_path(
                working_dir@,
                entries@[k]@,
            ) by {
                assert(string_views(out@)[k] == out@[k]@);
                assert(string_views(entries@)[k] == entries@[k]@);
            }
        }
        out
    }
}

} // verus!
