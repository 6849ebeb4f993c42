use vstd::prelude::*;

use crate::effect::EffectCall;

verus! {

/// A lock of one process. `Interpreter` and `Status` form the primary
/// critical section; the others are secondary resources.
#[derive(Debug, Clone, Copy, PartialEq, Eq, Structural)]
pub enum Lock {
    Interpreter,
    Status,
    Mailbox,
    Kv,
    Timers,
    Flags,
}


/// One step of a handler with respect to locks.
#[derive(Debug, Clone, Copy, PartialEq, Eq, Structural)]
pub enum LockStep {
    Acquire(Lock),
    Release(Lock),
    /// A call into the virtual machine that may take the interpreter and/or
    /// the status lock of any process, this one included.
    VmCall { interpreter: bool, status: bool },
}

/// The locks held at some point of a plan.
pub struct Held {
    pub interpreter: bool,
    pub status: bool,
    pub secondary: Option<Lock>,
}

pub open spec fn holds(h: Held, l: Lock) -> bool {
    match l {
        Lock::Interpreter => h.interpreter,
        Lock::Status => h.status,
        _ => h.secondary == Some(l),
    }
}

/// Whether `steps`, run from `h`, keeps the acquisition order: a primary
/// lock is never taken while a secondary one is held, at most one secondary
/// lock is held at a time, no lock is taken twice or released unheld, a call
/// that may take a primary lock finds it released and no secondary lock
/// held, and nothing is held at the end.
pub open spec fn ordered_from(steps: Seq<LockStep>, h: Held) -> bool
    decreases steps.len(),
{
    if steps.len() == 0 {
        !h.interpreter && !h.status && h.secondary is None
    } else {
        let rest = steps.drop_first();
        match steps[0] {
            LockStep::Acquire(l) => !holds(h, l) && h.secondary is None && ordered_from(
                rest,
                match l {
                    Lock::Interpreter => Held { interpreter: true, ..h },
                    Lock::Status => Held { status: true, ..h },
                    _ => Held { secondary: Some(l), ..h },
                },
            ),
            LockStep::Release(l) => holds(h, l) && ordered_from(
                rest,
                match l {
                    Lock::Interpreter => Held { interpreter: false, ..h },
                    Lock::Status => Held { status: false, ..h },
                    _ => Held { secondary: None, ..h },
                },
            ),
            LockStep::VmCall { interpreter, status } => h.secondary is None && !(interpreter
                && h.interpreter) && !(status && h.status) && ordered_from(rest, h),
        }
    }
}

pub open spec fn ordered(steps: Seq<LockStep>) -> bool {
    ordered_from(steps, Held { interpreter: false, status: false, secondary: None })
}

pub open spec fn keeping(inner: Seq<LockStep>) -> Seq<LockStep> {
    seq![LockStep::Acquire(Lock::Interpreter), LockStep::Acquire(Lock::Status)] + inner + seq![
        LockStep::Release(Lock::Status),
        LockStep::Release(Lock::Interpreter),
    ]
}

pub open spec fn releasing(after: Seq<LockStep>) -> Seq<LockStep> {
    seq![
        LockStep::Acquire(Lock::Interpreter),
        LockStep::Acquire(Lock::Status),
        LockStep::Release(Lock::Interpreter),
        LockStep::Release(Lock::Status),
    ] + after
}

pub open spec fn pair(l: Lock) -> Seq<LockStep> {
    seq![LockStep::Acquire(l), LockStep::Release(l)]
}

pub open spec fn local_call() -> Seq<LockStep> {
    seq![LockStep::VmCall { interpreter: false, status: false }]
}

pub open spec fn reentrant_call() -> Seq<LockStep> {
    seq![LockStep::VmCall { interpreter: true, status: true }]
}

/// The lock steps of resolving `call`, from the reduction's first
/// acquisition to its last release.
pub open spec fn plan(call: EffectCall) -> Seq<LockStep> {
    match call {
        EffectCall::Immediate { .. } | EffectCall::Defer { .. } => keeping(Seq::empty()),
        EffectCall::Spawn { .. } | EffectCall::Subscribe { .. } | EffectCall::VmInfo
        | EffectCall::Register { .. } | EffectCall::Unregister { .. } | EffectCall::Whereis {
            ..
        } => keeping(local_call()),
        EffectCall::SendMessage { .. } | EffectCall::ReceiveMessage { .. }
        | EffectCall::FlushMailbox { .. } => keeping(pair(Lock::Mailbox)),
        EffectCall::GetKv { .. } | EffectCall::UpdateKv { .. } => keeping(pair(Lock::Kv)),
        EffectCall::GetFlags { .. } | EffectCall::UpdateFlags { .. } => seq![
            LockStep::Acquire(Lock::Interpreter),
            LockStep::Acquire(Lock::Status),
            LockStep::Release(Lock::Status),
            LockStep::VmCall { interpreter: false, status: true },
        ] + pair(Lock::Flags) + seq![LockStep::Release(Lock::Interpreter)],
        EffectCall::AddTimer { .. } | EffectCall::RemoveTimer { .. } => releasing(
            pair(Lock::Timers),
        ),
        EffectCall::ProcessInfo => releasing(reentrant_call() + pair(Lock::Interpreter)),
        EffectCall::Publish { .. } | EffectCall::Monitor { .. } | EffectCall::Demonitor { .. }
        | EffectCall::Link { .. } | EffectCall::Unlink { .. } | EffectCall::Halt {
            ..
        } => releasing(reentrant_call()),
    }
}

fn push_keeping_start(steps: &mut Vec<LockStep>)
    ensures
        final(steps)@ == old(steps)@ + seq![
            LockStep::Acquire(Lock::Interpreter),
            LockStep::Acquire(Lock::Status),
        ],
{
    steps.push(LockStep::Acquire(Lock::Interpreter));
    steps.push(LockStep::Acquire(Lock::Status));
}

fn push_keeping_end(steps: &mut Vec<LockStep>)
    ensures
        final(steps)@ == old(steps)@ + seq![
            LockStep::Release(Lock::Status),
            LockStep::Release(Lock::Interpreter),
        ],
{
    steps.push(LockStep::Release(Lock::Status));
    steps.push(LockStep::Release(Lock::Interpreter));
}

fn push_release_all(steps: &mut Vec<LockStep>)
    ensures
        final(steps)@ == old(steps)@ + seq![
            LockStep::Release(Lock::Interpreter),
            LockStep::Release(Lock::Status),
        ],
{
    steps.push(LockStep::Release(Lock::Interpreter));
    steps.push(LockStep::Release(Lock::Status));
}

fn push_pair(steps: &mut Vec<LockStep>, l: Lock)
    ensures
        final(steps)@ == old(steps)@ + pair(l),
{
    steps.push(LockStep::Acquire(l));
    steps.push(LockStep::Release(l));
}

/// The lock steps that resolving `call` goes through.
pub fn lock_plan(call: &EffectCall) -> (r: Vec<LockStep>)
    ensures
        r@ == plan(*call),
{
    let mut r: Vec<LockStep> = Vec::new();
    let ghost start = r@;
    push_keeping_start(&mut r);
    match call {
        EffectCall::Immediate { .. } | EffectCall::Defer { .. } => {
            push_keeping_end(&mut r);
        },
        EffectCall::Spawn { .. } | EffectCall::Subscribe { .. } | EffectCall::VmInfo
        | EffectCall::Register { .. } | EffectCall::Unregister { .. } | EffectCall::Whereis {
            ..
        } => {
            r.push(LockStep::VmCall { interpreter: false, status: false });
            push_keeping_end(&mut r);
        },
        EffectCall::SendMessage { .. } | EffectCall::ReceiveMessage { .. }
        | EffectCall::FlushMailbox { .. } => {
            push_pair(&mut r, Lock::Mailbox);
            push_keeping_end(&mut r);
        },
        EffectCall::GetKv { .. } | EffectCall::UpdateKv { .. } => {
            push_pair(&mut r, Lock::Kv);
            push_keeping_end(&mut r);
        },
        EffectCall::GetFlags { .. } | EffectCall::UpdateFlags { .. } => {
            r.push(LockStep::Release(Lock::Status));
            r.push(LockStep::VmCall { interpreter: false, status: true });
            push_pair(&mut r, Lock::Flags);
            r.push(LockStep::Release(Lock::Interpreter));
        },
        EffectCall::AddTimer { .. } | EffectCall::RemoveTimer { .. } => {
            push_release_all(&mut r);
            push_pair(&mut r, Lock::Timers);
        },
        EffectCall::ProcessInfo => {
            push_release_all(&mut r);
            r.push(LockStep::VmCall { interpreter: true, status: true });
            push_pair(&mut r, Lock::Interpreter);
        },
        EffectCall::Publish { .. } | EffectCall::Monitor { .. } | EffectCall::Demonitor { .. }
        | EffectCall::Link { .. } | EffectCall::Unlink { .. } | EffectCall::Halt { .. } => {
            push_release_all(&mut r);
            r.push(LockStep::VmCall { interpreter: true, status: true });
        },
    }
    assert(r@ =~= plan(*call));
    r
}

/// Every handler's plan keeps the acquisition order.
pub proof fn lemma_plans_ordered(call: EffectCall)
    ensures
        ordered(plan(call)),
{
    reveal_with_fuel(ordered_from, 9);
}

} // verus!
