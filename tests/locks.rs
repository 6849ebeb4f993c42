use std::sync::Arc;

use deskvm_dprocess::effect::EffectCall;
use deskvm_dprocess::locks::{lock_plan, Lock, LockStep};
use deskvm_dprocess::value::Value;

#[test]
fn publish_releases_before_calling_the_machine() {
    let plan = lock_plan(&EffectCall::Publish { ty: 1, value: Arc::new(Value::Unit) });
    assert_eq!(
        plan,
        vec![
            LockStep::Acquire(Lock::Interpreter),
            LockStep::Acquire(Lock::Status),
            LockStep::Release(Lock::Interpreter),
            LockStep::Release(Lock::Status),
            LockStep::VmCall { interpreter: true, status: true },
        ]
    );
}

#[test]
fn mailbox_is_taken_after_the_primary_locks() {
    let plan = lock_plan(&EffectCall::ReceiveMessage { ty: 1 });
    assert_eq!(
        plan,
        vec![
            LockStep::Acquire(Lock::Interpreter),
            LockStep::Acquire(Lock::Status),
            LockStep::Acquire(Lock::Mailbox),
            LockStep::Release(Lock::Mailbox),
            LockStep::Release(Lock::Status),
            LockStep::Release(Lock::Interpreter),
        ]
    );
}

#[test]
fn flags_keep_the_interpreter_lock() {
    let plan = lock_plan(&EffectCall::GetFlags { target: 3 });
    assert_eq!(plan[2], LockStep::Release(Lock::Status));
    assert_eq!(plan[3], LockStep::VmCall { interpreter: false, status: true });
    assert_eq!(plan.last(), Some(&LockStep::Release(Lock::Interpreter)));
}
