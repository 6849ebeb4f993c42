use vstd::prelude::*;

verus! {

/// Identity of a scheduling unit.
#[derive(Debug, Clone, Copy, PartialEq, Eq, Hash, PartialOrd, Ord, Structural)]
pub struct ProcessorId(pub usize);

/// Whether a process is bound to a scheduling unit.
#[derive(Debug, Clone, Copy, PartialEq, Eq, Structural)]
pub enum ProcessorAttachment {
    Attached(ProcessorId),
    Detached,
}

impl Default for ProcessorAttachment {
    fn default() -> (r: Self)
        ensures
            r == ProcessorAttachment::Detached,
    {
        ProcessorAttachment::Detached
    }
}

impl ProcessorAttachment {
    /// The unit the process is bound to, if any.
    pub fn processor(&self) -> (r: Option<ProcessorId>)
        ensures
            r == (match *self {
                ProcessorAttachment::Attached(p) => Some(p),
                ProcessorAttachment::Detached => None,
            }),
    {
        match self {
            ProcessorAttachment::Attached(p) => Some(*p),
            ProcessorAttachment::Detached => None,
        }
    }
}

} // verus!
