use vstd::prelude::*;

verus! {

/// Scheduling priority of a process, modelled on Erlang's.
#[derive(Debug, Clone, Copy, PartialEq, Eq, Hash, Structural)]
pub enum Priority {
    /// The process might never be scheduled.
    Min,
    /// Lower than the default.
    Low,
    /// The usual priority.
    Default,
    /// Higher than the default.
    High,
    /// The process should always be scheduled.
    Max,
    /// For internal use: as high as `Max`, or higher.
    InternalMax,
}

impl Default for Priority {
    fn default() -> (r: Self)
        ensures
            r == Priority::Default,
    {
        Priority::Default
    }
}

/// Per-process scheduling metadata.
#[derive(Debug, Clone, Copy, PartialEq, Eq, Structural)]
pub struct DProcessFlags {
    priority: Priority,
}

impl DProcessFlags {
    pub closed spec fn spec_default() -> Self {
        DProcessFlags { priority: Priority::Default }
    }

    pub closed spec fn spec_priority(&self) -> Priority {
        self.priority
    }

    pub fn new(priority: Priority) -> (r: Self)
        ensures
            r.spec_priority() == priority,
    {
        DProcessFlags { priority }
    }

    pub fn priority(&self) -> (r: Priority)
        ensures
            r == self.spec_priority(),
    {
        self.priority
    }

    pub fn set_priority(&mut self, priority: Priority)
        ensures
            final(self).spec_priority() == priority,
    {
        self.priority = priority;
    }
}

impl Default for DProcessFlags {
    fn default() -> (r: Self)
        ensures
            r == DProcessFlags::spec_default(),
    {
        DProcessFlags { priority: Priority::Default }
    }
}

} // verus!
