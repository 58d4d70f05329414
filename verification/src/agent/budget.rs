//! Token budgets of a session: how a token total is judged against the
//! warning threshold and the hard limit.
use crate::paths::{join, join_path};
use vstd::prelude::*;

verus! {

/// The warning threshold and hard limit of a session's tokens.
#[derive(Debug, Clone, Copy, PartialEq, Eq, Structural)]
pub struct TokenBudget {
    pub warn_threshold: u32,
    pub hard_limit: u32,
}

/// A token total judged against a budget.
#[derive(Debug, Clone, Copy, PartialEq, Eq, Structural)]
pub enum BudgetStatus {
    Within { total: u32 },
    Warning { total: u32 },
    Exceeded { total: u32 },
}

impl BudgetStatus {
    /// The token total that was judged.
    pub fn total(&self) -> (t: u32)
        ensures
            t == match *self {
                BudgetStatus::Within { total } => total,
                BudgetStatus::Warning { total } => total,
                BudgetStatus::Exceeded { total } => total,
            },
    {
        match self {
            BudgetStatus::Within { total } => *total,
            BudgetStatus::Warning { total } => *total,
            BudgetStatus::Exceeded { total } => *total,
        }
    }
}

/// The judgement of `total`: exceeded at the hard limit, a warning at the
/// threshold, fine below.
pub open spec fn budget_status(total: u32, budget: TokenBudget) -> BudgetStatus {
    if total >= budget.hard_limit {
        BudgetStatus::Exceeded { total }
    } else if total >= budget.warn_threshold {
        BudgetStatus::Warning { total }
    } else {
        BudgetStatus::Within { total }
    }
}

/// Judges a session's token estimate against its budget; a session whose
/// size could not be measured counts as empty.
pub fn check(estimate: Option<u32>, budget: &TokenBudget) -> (s: BudgetStatus)
    ensures
        s == budget_status(
            match estimate {
                Some(t) => t,
                None => 0,
            },
            *budget,
        ),
{
    let total = match estimate {
        Some(t) => t,
        None => 0,
    };
    if total >= budget.hard_limit {
        BudgetStatus::Exceeded { total }
    } else if total >= budget.warn_threshold {
        BudgetStatus::Warning { total }
    } else {
        BudgetStatus::Within { total }
    }
}

/// The token estimate of a transcript of `bytes` bytes: a third of its
/// size, truncated to 32 bits.
pub fn estimate_from_size(bytes: u64) -> (t: u32)
    ensures
        t == (bytes / 3) as u32,
{
    #[verifier::truncate]
    ((bytes / 3) as u32)
}

/// The transcripts a session's size is measured by, in order of preference:
/// `conversation.jsonl`, then `session.jsonl`, under `config/sessions/<id>`.
pub fn estimate_paths(session_id: &str) -> (r: (String, String))
    ensures
        r.0@ == join_path(join_path(join_path("config"@, "sessions"@), session_id@), "conversation.jsonl"@),
        r.1@ == join_path(join_path(join_path("config"@, "sessions"@), session_id@), "session.jsonl"@),
{
    let base = join(join("config", "sessions").as_str(), session_id);
    (join(base.as_str(), "conversation.jsonl"), join(base.as_str(), "session.jsonl"))
}

} // verus!
