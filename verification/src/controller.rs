//! The state through which a running operation is paused, resumed,
//! cancelled or marked failed, and the decisions taken on it. The state is
//! stored as a number in a `Controller`. All the tasks of an operation work
//! on one state: they share one `Controller` (the caller holds it where they
//! all reach it), so a change made by one is seen by the others. Waiting for
//! a change is left to the caller, which asks again after each change.

use vstd::prelude::*;
use crate::operation::ControllerState;

verus! {

/// The number under which a state is stored: its place in the declaration.
pub open spec fn spec_state_code(state: ControllerState) -> u16 {
    match state {
        ControllerState::Cancelled => 0,
        ControllerState::Failed => 1,
        ControllerState::Paused => 2,
        ControllerState::Running => 3,
    }
}

/// The state stored under a number; a number that names no state reads as
/// `Failed`.
pub open spec fn spec_state_from_code(code: u16) -> ControllerState {
    if code == 0 {
        ControllerState::Cancelled
    } else if code == 1 {
        ControllerState::Failed
    } else if code == 2 {
        ControllerState::Paused
    } else if code == 3 {
        ControllerState::Running
    } else {
        ControllerState::Failed
    }
}

/// The number under which a state is stored.
pub fn state_code(state: ControllerState) -> (r: u16)
    ensures
        r == spec_state_code(state),
{
    match state {
        ControllerState::Cancelled => 0,
        ControllerState::Failed => 1,
        ControllerState::Paused => 2,
        ControllerState::Running => 3,
    }
}

/// The state stored under a number, `Failed` for a number that names none.
pub fn state_from_code(code: u16) -> (r: ControllerState)
    ensures
        r == spec_state_from_code(code),
{
    if code == 0 {
        ControllerState::Cancelled
    } else if code == 1 {
        ControllerState::Failed
    } else if code == 2 {
        ControllerState::Paused
    } else if code == 3 {
        ControllerState::Running
    } else {
        ControllerState::Failed
    }
}

/// Storing a state and reading it back gives the same state.
pub proof fn lemma_state_code_round_trip(state: ControllerState)
    ensures
        spec_state_from_code(spec_state_code(state)) == state,
{
}

/// What a check of the state answers: go on (`Some(Ok(()))`), stop with the
/// state that ended the operation (`Some(Err(..))`), or wait for the next
/// change (`None`, while paused).
pub open spec fn spec_check_step(state: ControllerState) -> Option<Result<(), ControllerState>> {
    match state {
        ControllerState::Cancelled => Some(Err(ControllerState::Cancelled)),
        ControllerState::Failed => Some(Err(ControllerState::Failed)),
        ControllerState::Paused => None,
        ControllerState::Running => Some(Ok(())),
    }
}

/// The state of one operation, as a task that works on it sees it.
#[derive(Debug)]
pub struct Controller {
    /// Whether the task is the one that started the operation (whose end
    /// cancels it, see [`Controller::cancels_on_drop`]).
    pub primary: bool,
    /// The stored state.
    pub code: u16,
}

impl Controller {
    /// A new controller: the primary handle, running.
    pub fn new() -> (r: Self)
        ensures
            r.primary,
            r.code == 3,
            spec_state_from_code(r.code) == ControllerState::Running,
    {
        Controller { primary: true, code: 3 }
    }

    /// The current state.
    pub fn state(&self) -> (r: ControllerState)
        ensures
            r == spec_state_from_code(self.code),
    {
        state_from_code(self.code)
    }

    /// Stores a state.
    pub fn set_state(&mut self, state: ControllerState)
        ensures
            final(self).code == spec_state_code(state),
            spec_state_from_code(final(self).code) == state,
            final(self).primary == old(self).primary,
    {
        self.code = state_code(state);
    }

    /// Whether the operation was cancelled.
    pub fn is_cancelled(&self) -> (r: bool)
        ensures
            r == (spec_state_from_code(self.code) == ControllerState::Cancelled),
    {
        self.state() == ControllerState::Cancelled
    }

    /// Cancels the operation.
    pub fn cancel(&mut self)
        ensures
            spec_state_from_code(final(self).code) == ControllerState::Cancelled,
            final(self).primary == old(self).primary,
    {
        self.set_state(ControllerState::Cancelled);
    }

    /// Whether the operation failed.
    pub fn is_failed(&self) -> (r: bool)
        ensures
            r == (spec_state_from_code(self.code) == ControllerState::Failed),
    {
        self.state() == ControllerState::Failed
    }

    /// Whether the operation is paused.
    pub fn is_paused(&self) -> (r: bool)
        ensures
            r == (spec_state_from_code(self.code) == ControllerState::Paused),
    {
        self.state() == ControllerState::Paused
    }

    /// Pauses the operation.
    pub fn pause(&mut self)
        ensures
            spec_state_from_code(final(self).code) == ControllerState::Paused,
            final(self).primary == old(self).primary,
    {
        self.set_state(ControllerState::Paused);
    }

    /// Resumes the operation. The test that guards the change (not cancelled
    /// or not failed) holds of every state, so the state always becomes
    /// `Running`.
    pub fn unpause(&mut self)
        ensures
            spec_state_from_code(final(self).code) == ControllerState::Running,
            final(self).primary == old(self).primary,
    {
        let not_cancelled = !self.is_cancelled();
        let not_failed = !self.is_failed();
        if not_cancelled || not_failed {
            self.set_state(ControllerState::Running);
        }
    }

    /// One step of waiting until the operation may go on: go on while
    /// running, stop when cancelled or failed, wait while paused.
    pub fn check_step(&self) -> (r: Option<Result<(), ControllerState>>)
        ensures
            r == spec_check_step(spec_state_from_code(self.code)),
            r is None <==> spec_state_from_code(self.code) == ControllerState::Paused,
    {
        match self.state() {
            ControllerState::Cancelled => Some(Err(ControllerState::Cancelled)),
            ControllerState::Failed => Some(Err(ControllerState::Failed)),
            ControllerState::Paused => None,
            ControllerState::Running => Some(Ok(())),
        }
    }

    /// Whether a wait for the pause is over: the state is `Paused`.
    pub fn paused_reached(&self) -> (r: bool)
        ensures
            r == (spec_state_from_code(self.code) == ControllerState::Paused),
    {
        self.is_paused()
    }

    /// Whether a wait for the resumption is over: the state is neither
    /// paused, cancelled nor failed.
    pub fn unpaused_reached(&self) -> (r: bool)
        ensures
            r == (spec_state_from_code(self.code) == ControllerState::Running),
    {
        let s = self.state();
        !(s == ControllerState::Paused || s == ControllerState::Cancelled || s == ControllerState::Failed)
    }

    /// Whether dropping this handle cancels the operation: it does for the
    /// primary handle of an operation that has not failed.
    pub fn cancels_on_drop(&self) -> (r: bool)
        ensures
            r == (self.primary && spec_state_from_code(self.code) != ControllerState::Failed),
    {
        self.primary && !self.is_failed()
    }
}

} // verus!
