use vstd::prelude::*;

use vstd::std_specs::convert::FromSpecImpl;

verus! {

/// What a close request needs: a confirmation, or nothing since the
/// session or workspace is already gone.
#[derive(Debug, Clone, Copy, PartialEq, Eq, Structural)]
pub enum CloseDecision {
    RequiresConfirmation,
    AlreadyClosed,
}

/// `CloseDecision` as the desktop front end receives it.
#[derive(Debug, Clone, Copy, PartialEq, Eq, Structural)]
pub enum CloseDecisionDto {
    RequiresConfirmation,
    AlreadyClosed,
}

impl From<CloseDecision> for CloseDecisionDto {
    fn from(decision: CloseDecision) -> (r: CloseDecisionDto) {
        match decision {
            CloseDecision::RequiresConfirmation => CloseDecisionDto::RequiresConfirmation,
            CloseDecision::AlreadyClosed => CloseDecisionDto::AlreadyClosed,
        }
    }
}

impl FromSpecImpl<CloseDecision> for CloseDecisionDto {
    open spec fn obeys_from_spec() -> bool {
        true
    }

    open spec fn from_spec(decision: CloseDecision) -> CloseDecisionDto {
        match decision {
            CloseDecision::RequiresConfirmation => CloseDecisionDto::RequiresConfirmation,
            CloseDecision::AlreadyClosed => CloseDecisionDto::AlreadyClosed,
        }
    }
}

/// Why a workspace was removed: always a confirmed close, since a process
/// exiting only ever ends one session.
#[derive(Debug, Clone, Copy, PartialEq, Eq, Structural)]
pub enum WorkspaceCloseReason {
    UserConfirmed,
}

/// Why a session was removed.
#[derive(Debug, Clone, Copy, PartialEq, Eq, Structural)]
pub enum SessionCloseReason {
    UserConfirmed,
    ProcessExited,
}

/// Whether resolving the startup path worked, with the error text when not.
pub struct StartupPathResolvedEvent {
    pub ok: bool,
    pub error: Option<String>,
}

/// Whether a session's agent is working on a prompt.
#[derive(Debug, Clone, Copy, PartialEq, Eq, Structural)]
pub enum SessionRuntimeStatus {
    Thinking,
    Idle,
}

/// The event announcing how resolving the startup path went.
pub fn startup_path_event(result: &Result<(), String>) -> (r: StartupPathResolvedEvent)
    ensures
        r.ok == result is Ok,
        match result {
            Ok(_) => r.error is None,
            Err(e) => r.error is Some && r.error->0@ == e@,
        },
{
    match result {
        Ok(()) => StartupPathResolvedEvent { ok: true, error: None },
        Err(e) => StartupPathResolvedEvent { ok: false, error: Some(e.clone()) },
    }
}

} // verus!
