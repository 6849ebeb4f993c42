use vstd::prelude::*;

use crate::value::Effect;

verus! {

/// A named timer of a process: the effect it stands for and its period.
#[derive(Debug, Clone, Copy, PartialEq, Eq, Structural)]
pub struct Timer {
    pub duration_millis: u64,
    pub effect: Effect,
}

} // verus!
