use std::sync::Arc;
use vstd::prelude::*;

verus! {

/// Identity of a process in the virtual machine.
pub type ProcessId = u64;

/// Identity of a runtime type; message queues, store entries and
/// subscriptions are keyed by it.
pub type TypeId = u64;

/// A runtime value handed across effect boundaries.
#[derive(Debug, Clone, PartialEq, Eq)]
pub enum Value {
    Unit,
    Integer(i64),
    String(String),
    Vector(Vec<SharedValue>),
}

/// Values are shared between processes by reference counting.
pub type SharedValue = Arc<Value>;

/// The identity of an effect: the type it is performed with and the type
/// of the answer it expects.
#[derive(Debug, Clone, Copy, PartialEq, Eq, Hash, Structural)]
pub struct Effect {
    pub input: TypeId,
    pub output: TypeId,
}

} // verus!
