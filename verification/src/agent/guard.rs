//! The guard of a run: it ends the run exactly once, with the state change
//! and turn-stop hook that the outcome calls for.
use crate::config::hooks::{HookConfiguration, HookEvent, HookPayload, HookStatus};
use crate::log::DiagLogger;
use crate::model::Status;
use crate::text::opt_chars;
use vstd::prelude::*;

verus! {

/// How the end of a run changes the session's state.
#[derive(Debug, Clone, Copy, PartialEq, Eq, Structural)]
pub enum RunEnd {
    /// The run ended normally: idle.
    Ended,
    /// The run was cancelled.
    Cancelled,
    /// The run failed.
    Failed,
}

/// What ending a run does: the state change, and the turn-stop hook run
/// with this payload.
#[derive(Debug, PartialEq, Eq)]
pub struct FinishPlan {
    pub end: RunEnd,
    pub payload: HookPayload,
}

/// The run's guard: what the turn-stop hook needs, and whether the run has
/// been ended.
#[derive(Debug, PartialEq, Eq)]
pub struct RunGuard {
    pub session_id: String,
    pub config_dir: String,
    pub working_dir: String,
    pub session_dir: String,
    pub hooks: HookConfiguration,
    pub logger: DiagLogger,
    pub finished: bool,
}

/// The state change of an outcome.
pub open spec fn end_of(status: Status) -> RunEnd {
    match status {
        Status::Idle => RunEnd::Ended,
        Status::Cancelled => RunEnd::Cancelled,
        _ => RunEnd::Failed,
    }
}

/// The hook status of an outcome.
pub open spec fn hook_status_of(status: Status) -> HookStatus {
    match status {
        Status::Idle => HookStatus::Succeeded,
        Status::Cancelled => HookStatus::Cancelled,
        _ => HookStatus::Failed,
    }
}

impl RunGuard {
    /// A guard with no hooks, a logger that writes nothing, and the current
    /// directory as working and session directory.
    pub fn new(session_id: &str, config_dir: &str) -> (g: RunGuard)
        ensures
            g.session_id@ == session_id@,
            g.config_dir@ == config_dir@,
            g.working_dir@ == "."@,
            g.session_dir@ == "."@,
            g.hooks.turn_start@.len() == 0,
            g.hooks.turn_stop@.len() == 0,
            g.logger.path is None,
            !g.finished,
    {
        RunGuard::with_hooks(session_id, config_dir, ".", ".", HookConfiguration::none(), DiagLogger::noop())
    }

    /// A guard for a run with the given directories, hooks and logger.
    pub fn with_hooks(
        session_id: &str,
        config_dir: &str,
        working_dir: &str,
        session_dir: &str,
        hooks: HookConfiguration,
        logger: DiagLogger,
    ) -> (g: RunGuard)
        ensures
            g.session_id@ == session_id@,
            g.config_dir@ == config_dir@,
            g.working_dir@ == working_dir@,
            g.session_dir@ == session_dir@,
            g.hooks == hooks,
            g.logger == logger,
            !g.finished,
    {
        RunGuard {
            session_id: session_id.to_owned(),
            config_dir: config_dir.to_owned(),
            working_dir: working_dir.to_owned(),
            session_dir: session_dir.to_owned(),
            hooks,
            logger,
            finished: false,
        }
    }

    /// Ends the run with `status`: the first time, the state change and the
    /// turn-stop payload it calls for, stamped with the time `now`; every
    /// later time, nothing.
    pub fn finish(&mut self, status: Status, error: Option<String>, reason: Option<String>, now: String) -> (r: Option<FinishPlan>)
        ensures
            old(self).finished ==> r is None && *final(self) == *old(self),
            !old(self).finished ==> (r matches Some(plan) && plan.end == end_of(status) && plan.payload.event
                == HookEvent::TurnStop && plan.payload.status == hook_status_of(status) && plan.payload.session_id
                == old(self).session_id && plan.payload.working_dir == old(self).working_dir
                && plan.payload.config_dir == old(self).config_dir && plan.payload.session_dir == old(
                self,
            ).session_dir && plan.payload.error == error && plan.payload.reason == reason
                && plan.payload.timestamp == now),
            final(self).finished,
            final(self).session_id == old(self).session_id,
            final(self).config_dir == old(self).config_dir,
            final(self).working_dir == old(self).working_dir,
            final(self).session_dir == old(self).session_dir,
            final(self).hooks == old(self).hooks,
            final(self).logger == old(self).logger,
    {
        if self.finished {
            return None;
        }
        self.finished = true;
        let end = match status {
            Status::Idle => RunEnd::Ended,
            Status::Cancelled => RunEnd::Cancelled,
            _ => RunEnd::Failed,
        };
        let hook_status = match status {
            Status::Idle => HookStatus::Succeeded,
            Status::Cancelled => HookStatus::Cancelled,
            _ => HookStatus::Failed,
        };
        let payload = HookPayload {
            event: HookEvent::TurnStop,
            session_id: self.session_id.clone(),
            timestamp: now,
            status: hook_status,
            working_dir: self.working_dir.clone(),
            config_dir: self.config_dir.clone(),
            session_dir: self.session_dir.clone(),
            error,
            reason,
        };
        Some(FinishPlan { end, payload })
    }

    /// What a guard dropped before the run was ended does: it ends the run
    /// as failed by an unexpected exit, at the time `now`.
    pub fn fallback(&mut self, now: String) -> (r: Option<FinishPlan>)
        ensures
            old(self).finished ==> r is None && *final(self) == *old(self),
            !old(self).finished ==> (r matches Some(plan) && plan.end == RunEnd::Failed && plan.payload.status
                == HookStatus::Failed && opt_chars(plan.payload.error) == Some("unexpected run exit"@) && opt_chars(
                plan.payload.reason,
            ) == Some("guard fallback"@) && plan.payload.timestamp == now),
            final(self).finished,
    {
        if self.finished {
            return None;
        }
        self.finish(Status::Failed, Some("unexpected run exit".to_owned()), Some("guard fallback".to_owned()), now)
    }
}

} // verus!
