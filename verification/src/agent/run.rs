//! The decisions of the agent loop: when a run stops for its token budget,
//! when it warns, and what a model's response leads to.
use crate::agent::budget::TokenBudget;
use crate::agent::history::ConvoToolCall;
use crate::config::PolicyLimits;
use crate::json::{Json, JsonV};
use crate::text::{blank, concat, decimal, decimal_string, is_blank, push_str};
use vstd::prelude::*;

verus! {

/// `a + b`, saturating at the largest `u32`.
pub open spec fn sat_add(a: u32, b: u32) -> u32 {
    if a + b > u32::MAX {
        u32::MAX
    } else {
        (a + b) as u32
    }
}

/// `a - b`, saturating at zero.
pub open spec fn sat_sub(a: u32, b: u32) -> u32 {
    if a >= b {
        (a - b) as u32
    } else {
        0
    }
}

/// A warning is due: the estimate reached the threshold, and no warning was
/// given yet or the estimate grew by the interval since the last one.
pub open spec fn warns(estimated: u32, warn_threshold: u32, last_warn: Option<u32>, interval: u32) -> bool {
    estimated >= warn_threshold && match last_warn {
        None => true,
        Some(last) => estimated >= sat_add(last, interval),
    }
}

/// Whether a budget warning is due.
pub fn should_warn_for_budget(estimated: u32, warn_threshold: u32, last_warn: Option<u32>, interval: u32) -> (r: bool)
    ensures
        r == warns(estimated, warn_threshold, last_warn, interval),
{
    estimated >= warn_threshold && match last_warn {
        None => true,
        Some(last) => {
            let next = if last > u32::MAX - interval {
                u32::MAX
            } else {
                last + interval
            };
            estimated >= next
        },
    }
}

/// The spacing of warnings: a tenth of the gap between threshold and hard
/// limit where the policy sets both, else 4000.
pub open spec fn interval_of(limits: PolicyLimits) -> u32 {
    match (limits.token_warn_threshold, limits.token_hard_limit) {
        (Some(w), Some(h)) => sat_sub(h, w) / 10,
        _ => 4000,
    }
}

/// The spacing of budget warnings under a policy's limits.
pub fn warn_interval(limits: &PolicyLimits) -> (r: u32)
    ensures
        r == interval_of(*limits),
{
    match (limits.token_warn_threshold, limits.token_hard_limit) {
        (Some(w), Some(h)) => (if h >= w {
            h - w
        } else {
            0
        }) / 10,
        _ => 4000,
    }
}

/// The limits and warning spacing a budget imposes on a run in place of the
/// policy's.
pub fn budget_limits(budget: &TokenBudget) -> (r: (PolicyLimits, u32))
    ensures
        r.0.token_warn_threshold == Some(budget.warn_threshold),
        r.0.token_hard_limit == Some(budget.hard_limit),
        r.0.max_steps is None,
        r.1 == sat_sub(budget.hard_limit, budget.warn_threshold) / 10,
{
    let gap = if budget.hard_limit >= budget.warn_threshold {
        budget.hard_limit - budget.warn_threshold
    } else {
        0
    };
    (
        PolicyLimits {
            token_warn_threshold: Some(budget.warn_threshold),
            token_hard_limit: Some(budget.hard_limit),
            max_steps: None,
        },
        gap / 10,
    )
}

/// The hard limit of a run: the policy's, else 120000.
pub open spec fn hard_of(limits: PolicyLimits) -> u32 {
    match limits.token_hard_limit {
        Some(h) => h,
        None => 120_000,
    }
}

/// The warning threshold of a run: the policy's, else 80000.
pub open spec fn warn_of(limits: PolicyLimits) -> u32 {
    match limits.token_warn_threshold {
        Some(w) => w,
        None => 80_000,
    }
}

/// How a run ends for its budget: the system message recorded, the error
/// returned, the estimate stored (before sending only) and the log event.
#[derive(Debug, PartialEq, Eq)]
pub struct Termination {
    pub message: String,
    pub error: String,
    pub token_estimate: Option<u32>,
    pub log_event: String,
}

/// The system message of a budget termination.
pub open spec fn termination_message(estimated: u32, hard: u32, before_send: bool) -> Seq<char> {
    if before_send {
        "[SESSION TERMINATED] Estimated token count ("@ + decimal(estimated as nat) + ") would exceed hard limit ("@
            + decimal(hard as nat) + ") before sending. \\\n                Start a new session to continue."@
    } else {
        "[SESSION TERMINATED] Token hard limit reached ("@ + decimal(estimated as nat) + " / "@ + decimal(
            hard as nat,
        ) + " tokens). \\\n                The run has been stopped. Start a new session to continue."@
    }
}

/// The error of a budget termination.
pub open spec fn termination_error(estimated: u32, before_send: bool) -> Seq<char> {
    if before_send {
        "token hard limit would be exceeded before sending: "@ + decimal(estimated as nat) + " estimated tokens"@
    } else {
        "token hard limit exceeded: "@ + decimal(estimated as nat) + " tokens"@
    }
}

/// How a run ends when `estimated` tokens reach the hard limit `hard`,
/// before sending a request or after a response.
pub fn terminate_for_budget(estimated: u32, hard: u32, before_send: bool) -> (t: Termination)
    ensures
        t.message@ == termination_message(estimated, hard, before_send),
        t.error@ == termination_error(estimated, before_send),
        t.token_estimate == (if before_send {
            Some(estimated)
        } else {
            None
        }),
        t.log_event@ == (if before_send {
            "pre_send_budget_exceeded"@
        } else {
            "budget_exceeded"@
        }),
{
    let e = decimal_string(estimated as u64);
    let h = decimal_string(hard as u64);
    if before_send {
        let mut message = concat("[SESSION TERMINATED] Estimated token count (", e.as_str());
        push_str(&mut message, ") would exceed hard limit (");
        push_str(&mut message, h.as_str());
        push_str(&mut message, ") before sending. \\\n                Start a new session to continue.");
        let mut error = concat("token hard limit would be exceeded before sending: ", e.as_str());
        push_str(&mut error, " estimated tokens");
        Termination {
            message,
            error,
            token_estimate: Some(estimated),
            log_event: "pre_send_budget_exceeded".to_owned(),
        }
    } else {
        let mut message = concat("[SESSION TERMINATED] Token hard limit reached (", e.as_str());
        push_str(&mut message, " / ");
        push_str(&mut message, h.as_str());
        push_str(&mut message, " tokens). \\\n                The run has been stopped. Start a new session to continue.");
        let mut error = concat("token hard limit exceeded: ", e.as_str());
        push_str(&mut error, " tokens");
        Termination { message, error, token_estimate: None, log_event: "budget_exceeded".to_owned() }
    }
}

/// The system message of a budget warning.
pub open spec fn warning_text(estimated: u32, warn: u32, hard: u32) -> Seq<char> {
    "[WARNING] This session has consumed "@ + decimal(estimated as nat) + " tokens (warn threshold: "@ + decimal(
        warn as nat,
    ) + "). Consider wrapping up or the session will be terminated at "@ + decimal(hard as nat) + " tokens."@
}

/// The system message of a budget warning.
pub fn warning_message(estimated: u32, warn: u32, hard: u32) -> (m: String)
    ensures
        m@ == warning_text(estimated, warn, hard),
{
    let mut m = concat("[WARNING] This session has consumed ", decimal_string(estimated as u64).as_str());
    push_str(&mut m, " tokens (warn threshold: ");
    push_str(&mut m, decimal_string(warn as u64).as_str());
    push_str(&mut m, "). Consider wrapping up or the session will be terminated at ");
    push_str(&mut m, decimal_string(hard as u64).as_str());
    push_str(&mut m, " tokens.");
    m
}

/// The check before a request is sent: the run ends when the estimate
/// already reaches the hard limit.
pub fn before_send(estimated: u32, limits: &PolicyLimits) -> (r: Option<Termination>)
    ensures
        estimated >= hard_of(*limits) <==> r is Some,
        r matches Some(t) ==> t.message@ == termination_message(estimated, hard_of(*limits), true) && t.error@
            == termination_error(estimated, true) && t.token_estimate == Some(estimated),
{
    let hard = match limits.token_hard_limit {
        Some(h) => h,
        None => 120_000,
    };
    if estimated >= hard {
        Some(terminate_for_budget(estimated, hard, true))
    } else {
        None
    }
}

/// What the loop remembers between turns: the estimate at the last warning.
#[derive(Debug, Clone, Copy, PartialEq, Eq, Structural)]
pub struct LoopState {
    pub last_warn_tokens: Option<u32>,
}

/// What the budget asks of a run after a response.
#[derive(Debug, PartialEq, Eq)]
pub enum BudgetAction {
    /// End the run.
    Terminate(Termination),
    /// Record this warning and go on.
    Warn(String),
    /// Go on.
    Continue,
}

/// The budget check after a response: at the hard limit the run ends; at
/// the threshold a warning is given when one is due, and remembered.
pub fn after_response(state: &mut LoopState, estimated: u32, limits: &PolicyLimits, interval: u32) -> (r: BudgetAction)
    ensures
        estimated >= hard_of(*limits) ==> (r matches BudgetAction::Terminate(t) && t.message@ == termination_message(
            estimated,
            hard_of(*limits),
            false,
        ) && t.error@ == termination_error(estimated, false) && t.token_estimate is None),
        estimated < hard_of(*limits) && warns(estimated, warn_of(*limits), old(state).last_warn_tokens, interval) ==> (
        r matches BudgetAction::Warn(m) && m@ == warning_text(estimated, warn_of(*limits), hard_of(*limits))),
        estimated < hard_of(*limits) && !warns(estimated, warn_of(*limits), old(state).last_warn_tokens, interval)
            ==> r == BudgetAction::Continue,
        r is Warn ==> final(state).last_warn_tokens == Some(estimated),
        !(r is Warn) ==> *final(state) == *old(state),
{
    let hard = match limits.token_hard_limit {
        Some(h) => h,
        None => 120_000,
    };
    let warn = match limits.token_warn_threshold {
        Some(w) => w,
        None => 80_000,
    };
    if estimated >= hard {
        return BudgetAction::Terminate(terminate_for_budget(estimated, hard, false));
    }
    if should_warn_for_budget(estimated, warn, state.last_warn_tokens, interval) {
        state.last_warn_tokens = Some(estimated);
        return BudgetAction::Warn(warning_message(estimated, warn, hard));
    }
    BudgetAction::Continue
}

/// Token counts a provider reports with a response.
#[derive(Debug, Clone, Copy, PartialEq, Eq, Structural)]
pub struct TokenCounts {
    pub input_tokens: u32,
    pub output_tokens: u32,
}

/// A model's complete response.
#[derive(Debug, PartialEq)]
pub struct Response {
    pub message: Option<String>,
    pub reasoning: Option<String>,
    pub tool_calls: Option<Vec<ConvoToolCall>>,
    pub usage: Option<TokenCounts>,
    pub model: Option<String>,
}

/// The response of a stream that completed with nothing.
pub fn empty_response() -> (r: Response)
    ensures
        r.message is None,
        r.reasoning is None,
        r.tool_calls is None,
        r.usage is None,
        r.model is None,
{
    Response { message: None, reasoning: None, tool_calls: None, usage: None, model: None }
}

/// What a response leads to.
#[derive(Debug, Clone, Copy, PartialEq, Eq, Structural)]
pub enum ResponseAction {
    /// Run the requested tools and continue.
    RunTools,
    /// Record the message and finish.
    Complete,
    /// Ask the model again for a message or a tool call.
    Nudge,
}

/// The action a response leads to: tool calls are run; else a message with
/// text completes the run; else the model is asked again.
pub open spec fn response_action(r: Response) -> ResponseAction {
    if r.tool_calls is Some {
        ResponseAction::RunTools
    } else {
        match r.message {
            Some(m) => if !is_blank(m@) {
                ResponseAction::Complete
            } else {
                ResponseAction::Nudge
            },
            None => ResponseAction::Nudge,
        }
    }
}

/// Classifies a response.
pub fn handle_response(response: &Response) -> (a: ResponseAction)
    ensures
        a == response_action(*response),
{
    if response.tool_calls.is_some() {
        return ResponseAction::RunTools;
    }
    match &response.message {
        Some(m) => if !blank(m.as_str()) {
            ResponseAction::Complete
        } else {
            ResponseAction::Nudge
        },
        None => ResponseAction::Nudge,
    }
}

/// The system message that asks the model again.
pub open spec fn nudge_text() -> Seq<char> {
    "The previous response contained no text and no tool calls. Please respond with a message or use a tool."@
}

/// The system message that asks the model again.
pub fn nudge_message() -> (m: String)
    ensures
        m@ == nudge_text(),
{
    "The previous response contained no text and no tool calls. Please respond with a message or use a tool.".to_owned()
}

/// The message recorded before the calls of a tool turn: the response's
/// text, where it has any.
pub fn tool_turn_message(response: &Response) -> (r: Option<String>)
    ensures
        match response.message {
            Some(m) => if !is_blank(m@) {
                r == Some(m)
            } else {
                r is None
            },
            None => r is None,
        },
{
    match &response.message {
        Some(m) => if !blank(m.as_str()) {
            Some(m.clone())
        } else {
            None
        },
        None => None,
    }
}

/// The result recorded for a tool that failed with `e`.
pub fn tool_failure_value(e: &str) -> (r: Json)
    ensures
        r@ == JsonV::Str("Error: "@ + e@),
{
    Json::Str(concat("Error: ", e))
}

} // verus!
