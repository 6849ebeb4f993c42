use std::sync::Arc;
use vstd::prelude::*;

use crate::value::{Effect, SharedValue, TypeId};

verus! {

/// The error an interpreter fails with; a crashed process keeps it.
/// Relies on `anyhow::Error` only as an opaque value that is moved around.
#[verifier::external_type_specification]
#[verifier::external_body]
pub struct ExAnyhowError(anyhow::Error);

/// A shared interpreter error.
pub type SharedError = Arc<anyhow::Error>;

/// The state of one process.
#[derive(Debug)]
pub enum DProcessStatus {
    Running,
    WaitingForMessage(TypeId),
    Returned(SharedValue),
    Crashed(SharedError),
    Halted { ty: TypeId, reason: SharedValue },
}

impl DProcessStatus {
    pub open spec fn spec_is_terminal(&self) -> bool {
        match self {
            DProcessStatus::Returned(_) | DProcessStatus::Crashed(_) | DProcessStatus::Halted {
                ..
            } => true,
            _ => false,
        }
    }

    pub fn is_terminal(&self) -> (r: bool)
        ensures
            r == self.spec_is_terminal(),
    {
        match self {
            DProcessStatus::Returned(_) | DProcessStatus::Crashed(_) | DProcessStatus::Halted {
                ..
            } => true,
            _ => false,
        }
    }

    /// A copy sharing the same values.
    pub fn duplicate(&self) -> (r: Self)
        ensures
            r == *self,
    {
        match self {
            DProcessStatus::Running => DProcessStatus::Running,
            DProcessStatus::WaitingForMessage(ty) => DProcessStatus::WaitingForMessage(*ty),
            DProcessStatus::Returned(v) => DProcessStatus::Returned(v.clone()),
            DProcessStatus::Crashed(e) => DProcessStatus::Crashed(e.clone()),
            DProcessStatus::Halted { ty, reason } => DProcessStatus::Halted {
                ty: *ty,
                reason: reason.clone(),
            },
        }
    }
}

/// The transitions of the process state machine, staying put included.
pub open spec fn allowed_transition(from: DProcessStatus, to: DProcessStatus) -> bool {
    if from == to {
        true
    } else {
        match from {
            DProcessStatus::Running => match to {
                DProcessStatus::Returned(_) | DProcessStatus::Crashed(_)
                | DProcessStatus::WaitingForMessage(_) | DProcessStatus::Halted { .. } => true,
                _ => false,
            },
            DProcessStatus::WaitingForMessage(_) => match to {
                DProcessStatus::Running | DProcessStatus::Halted { .. } => true,
                _ => false,
            },
            _ => false,
        }
    }
}

/// What one reduction reports to the scheduler.
#[derive(Debug)]
pub enum ProcessOutput {
    Running,
    WaitingForMessage,
    /// The effect was left to the caller, who resolves it and resumes the
    /// interpreter.
    Performed { input: SharedValue, effect: Effect },
    Returned(SharedValue),
    Halted { ty: TypeId, reason: SharedValue },
    Crashed(SharedError),
}

} // verus!
