use std::sync::Arc;

use deskvm_dprocess::dprocess::DProcess;
use deskvm_dprocess::effect::{EffectCall, Feed, InterpreterOutput, InterpreterStep, Reduction};
use deskvm_dprocess::flags::{DProcessFlags, Priority};
use deskvm_dprocess::processor_attachment::{ProcessorAttachment, ProcessorId};
use deskvm_dprocess::status::{DProcessStatus, ProcessOutput};
use deskvm_dprocess::timer::Timer;
use deskvm_dprocess::value::{Effect, ProcessId, SharedValue, Value};
use deskvm_dprocess::vm::Vm;

fn integer(n: i64) -> SharedValue {
    Arc::new(Value::Integer(n))
}

fn performed(call: EffectCall) -> InterpreterStep {
    Ok(InterpreterOutput::Performed(call))
}

fn idle() -> InterpreterStep {
    Ok(InterpreterOutput::Running)
}

fn spawn(vm: &mut Vm) -> ProcessId {
    vm.spawn(Arc::new(Value::Unit)).unwrap()
}

fn process(vm: &Vm, id: ProcessId) -> &DProcess {
    vm.get_dprocess(id).unwrap()
}

fn fed_value(r: &Reduction) -> Value {
    match &r.feed {
        Feed::Value(v) => (**v).clone(),
        other => panic!("expected a value, got {:?}", other),
    }
}

fn is_running(status: &DProcessStatus) -> bool {
    matches!(status, DProcessStatus::Running)
}

#[test]
fn receive_waits_until_a_message_arrives() {
    let mut vm = Vm::new();
    let p = spawn(&mut vm);
    let q = spawn(&mut vm);
    let r = vm.reduce(p, performed(EffectCall::ReceiveMessage { ty: 7 })).unwrap();
    assert!(matches!(r.output, ProcessOutput::WaitingForMessage));
    assert!(matches!(r.feed, Feed::Nothing));
    assert!(matches!(process(&vm, p).status(), DProcessStatus::WaitingForMessage(7)));
    assert_eq!(process(&vm, p).queued(7), 0);

    let r = vm
        .reduce(q, performed(EffectCall::SendMessage { output: integer(0), to: p, ty: 7, message: integer(42) }))
        .unwrap();
    assert!(matches!(r.output, ProcessOutput::Running));
    assert_eq!(fed_value(&r), Value::Integer(0));

    let r = vm.reduce(p, idle()).unwrap();
    assert!(matches!(r.output, ProcessOutput::Running));
    assert_eq!(fed_value(&r), Value::Integer(42));
    assert!(is_running(&process(&vm, p).status()));
    assert_eq!(process(&vm, p).queued(7), 0);
}

#[test]
fn waiting_process_stays_waiting_without_its_type() {
    let mut vm = Vm::new();
    let p = spawn(&mut vm);
    vm.reduce(p, performed(EffectCall::ReceiveMessage { ty: 1 })).unwrap();
    vm.send_message(p, 2, integer(5));
    let r = vm.reduce(p, idle()).unwrap();
    assert!(matches!(r.output, ProcessOutput::WaitingForMessage));
    assert!(matches!(process(&vm, p).status(), DProcessStatus::WaitingForMessage(1)));
    assert_eq!(process(&vm, p).queued(2), 1);
}

#[test]
fn receive_takes_oldest_message_first() {
    let mut vm = Vm::new();
    let p = spawn(&mut vm);
    vm.send_message(p, 3, integer(1));
    vm.send_message(p, 3, integer(2));
    let r = vm.reduce(p, performed(EffectCall::ReceiveMessage { ty: 3 })).unwrap();
    assert_eq!(fed_value(&r), Value::Integer(1));
    let r = vm.reduce(p, performed(EffectCall::ReceiveMessage { ty: 3 })).unwrap();
    assert_eq!(fed_value(&r), Value::Integer(2));
    assert!(is_running(&process(&vm, p).status()));
}

#[test]
fn flush_drains_in_order() {
    let mut vm = Vm::new();
    let p = spawn(&mut vm);
    vm.send_message(p, 4, integer(10));
    vm.send_message(p, 4, integer(20));
    vm.send_message(p, 4, integer(30));
    vm.send_message(p, 5, integer(99));
    let r = vm.reduce(p, performed(EffectCall::FlushMailbox { ty: 4 })).unwrap();
    match r.feed {
        Feed::Messages(ms) => {
            let got: Vec<Value> = ms.iter().map(|m| (**m).clone()).collect();
            assert_eq!(got, vec![Value::Integer(10), Value::Integer(20), Value::Integer(30)]);
        }
        other => panic!("expected messages, got {:?}", other),
    }
    assert_eq!(process(&vm, p).queued(4), 0);
    assert_eq!(process(&vm, p).queued(5), 1);
}

#[test]
fn flush_of_absent_type_is_empty() {
    let mut vm = Vm::new();
    let p = spawn(&mut vm);
    let r = vm.reduce(p, performed(EffectCall::FlushMailbox { ty: 9 })).unwrap();
    match r.feed {
        Feed::Messages(ms) => assert!(ms.is_empty()),
        other => panic!("expected messages, got {:?}", other),
    }
}

#[test]
fn send_to_missing_process_is_dropped() {
    let mut vm = Vm::new();
    let p = spawn(&mut vm);
    let r = vm
        .reduce(p, performed(EffectCall::SendMessage { output: integer(1), to: 77, ty: 1, message: integer(2) }))
        .unwrap();
    assert!(matches!(r.output, ProcessOutput::Running));
    assert!(vm.get_dprocess(77).is_none());
    assert_eq!(vm.process_count(), 1);
}

#[test]
fn link_both_present_is_symmetric() {
    let mut vm = Vm::new();
    let a = spawn(&mut vm);
    let b = spawn(&mut vm);
    vm.reduce(a, performed(EffectCall::Link { output: integer(0), first: a, second: b })).unwrap();
    assert!(process(&vm, a).is_linked(b));
    assert!(process(&vm, b).is_linked(a));
    vm.reduce(a, performed(EffectCall::Unlink { output: integer(0), first: a, second: b })).unwrap();
    assert!(!process(&vm, a).is_linked(b));
    assert!(!process(&vm, b).is_linked(a));
}

#[test]
fn link_with_missing_process_is_reported() {
    let mut vm = Vm::new();
    let a = spawn(&mut vm);
    vm.reduce(a, performed(EffectCall::Link { output: integer(0), first: a, second: 50 })).unwrap();
    assert_eq!(process(&vm, a).link_failures(), &vec![50]);
    assert!(!process(&vm, a).is_linked(50));
    vm.reduce(a, performed(EffectCall::Link { output: integer(0), first: 60, second: a })).unwrap();
    assert_eq!(process(&vm, a).link_failures(), &vec![50, 60]);
}

#[test]
fn register_whereis_unregister() {
    let mut vm = Vm::new();
    let a = spawn(&mut vm);
    let b = spawn(&mut vm);
    let name = String::from("logger");
    vm.reduce(a, performed(EffectCall::Register { output: integer(0), name: name.clone(), id: b })).unwrap();
    let r = vm.reduce(a, performed(EffectCall::Whereis { name: name.clone() })).unwrap();
    assert!(matches!(r.feed, Feed::Location(Some(id)) if id == b));
    vm.reduce(a, performed(EffectCall::Unregister { output: integer(0), name: name.clone() })).unwrap();
    let r = vm.reduce(a, performed(EffectCall::Whereis { name })).unwrap();
    assert!(matches!(r.feed, Feed::Location(None)));
}

#[test]
fn register_replaces_earlier_binding() {
    let mut vm = Vm::new();
    vm.register(String::from("svc"), 1);
    vm.register(String::from("svc"), 2);
    assert_eq!(vm.whereis(&String::from("svc")), Some(2));
    assert_eq!(vm.whereis(&String::from("other")), None);
}

#[test]
fn publish_reaches_subscribers_at_dispatch() {
    let mut vm = Vm::new();
    let a = spawn(&mut vm);
    let b = spawn(&mut vm);
    let c = spawn(&mut vm);
    vm.reduce(a, performed(EffectCall::Subscribe { output: integer(0), ty: 8 })).unwrap();
    vm.reduce(b, performed(EffectCall::Subscribe { output: integer(0), ty: 8 })).unwrap();
    vm.reduce(b, performed(EffectCall::Subscribe { output: integer(0), ty: 8 })).unwrap();
    let r = vm.reduce(c, performed(EffectCall::Publish { ty: 8, value: integer(3) })).unwrap();
    assert!(matches!(r.feed, Feed::Unit));
    assert_eq!(process(&vm, a).queued(8), 1);
    assert_eq!(process(&vm, b).queued(8), 1);
    assert_eq!(process(&vm, c).queued(8), 0);
    vm.reduce(c, performed(EffectCall::Subscribe { output: integer(0), ty: 8 })).unwrap();
    assert_eq!(process(&vm, c).queued(8), 0);
    let r = vm.reduce(b, performed(EffectCall::ReceiveMessage { ty: 8 })).unwrap();
    assert_eq!(fed_value(&r), Value::Integer(3));
}

#[test]
fn timers_are_added_and_removed() {
    let mut vm = Vm::new();
    let p = spawn(&mut vm);
    let timer = Timer { duration_millis: 5, effect: Effect { input: 1, output: 2 } };
    let name = String::from("t1");
    vm.reduce(p, performed(EffectCall::AddTimer { output: integer(0), name: name.clone(), timer })).unwrap();
    assert_eq!(process(&vm, p).timer(&name), Some(timer));
    vm.reduce(p, performed(EffectCall::RemoveTimer { output: integer(0), name: name.clone() })).unwrap();
    assert_eq!(process(&vm, p).timer(&name), None);
    let r = vm
        .reduce(p, performed(EffectCall::RemoveTimer { output: integer(1), name: String::from("none") }))
        .unwrap();
    assert!(matches!(r.output, ProcessOutput::Running));
    assert_eq!(process(&vm, p).timer(&name), None);
}

#[test]
fn returned_process_stays_returned() {
    let mut vm = Vm::new();
    let p = spawn(&mut vm);
    let r = vm.reduce(p, Ok(InterpreterOutput::Returned(integer(8)))).unwrap();
    assert!(matches!(r.output, ProcessOutput::Returned(ref v) if **v == Value::Integer(8)));
    let r = vm.reduce(p, performed(EffectCall::ReceiveMessage { ty: 1 })).unwrap();
    assert!(matches!(r.output, ProcessOutput::Returned(ref v) if **v == Value::Integer(8)));
    assert!(matches!(process(&vm, p).status(), DProcessStatus::Returned(_)));
}

#[test]
fn interpreter_error_crashes_the_process() {
    let mut vm = Vm::new();
    let p = spawn(&mut vm);
    let err = Arc::new(anyhow::Error::msg("boom"));
    let r = vm.reduce(p, Err(err)).unwrap();
    match r.output {
        ProcessOutput::Crashed(e) => assert_eq!(e.to_string(), "boom"),
        other => panic!("expected a crash, got {:?}", other),
    }
    let r = vm.reduce(p, Ok(InterpreterOutput::Returned(integer(1)))).unwrap();
    assert!(matches!(r.output, ProcessOutput::Crashed(_)));
}

#[test]
fn halt_stops_another_process() {
    let mut vm = Vm::new();
    let a = spawn(&mut vm);
    let b = spawn(&mut vm);
    vm.reduce(b, performed(EffectCall::ReceiveMessage { ty: 1 })).unwrap();
    let r = vm
        .reduce(a, performed(EffectCall::Halt { output: integer(0), target: b, ty: 3, reason: integer(4) }))
        .unwrap();
    assert!(matches!(r.output, ProcessOutput::Running));
    let r = vm.reduce(b, idle()).unwrap();
    assert!(matches!(r.output, ProcessOutput::Halted { ty: 3, ref reason } if **reason == Value::Integer(4)));
}

#[test]
fn halt_leaves_finished_process_alone() {
    let mut vm = Vm::new();
    let a = spawn(&mut vm);
    let b = spawn(&mut vm);
    vm.reduce(b, Ok(InterpreterOutput::Returned(integer(1)))).unwrap();
    vm.reduce(a, performed(EffectCall::Halt { output: integer(0), target: b, ty: 3, reason: integer(4) })).unwrap();
    assert!(matches!(process(&vm, b).status(), DProcessStatus::Returned(_)));
    vm.reduce(a, performed(EffectCall::Halt { output: integer(0), target: 99, ty: 3, reason: integer(4) })).unwrap();
    assert!(is_running(&process(&vm, a).status()));
}

#[test]
fn defer_hands_the_effect_back() {
    let mut vm = Vm::new();
    let p = spawn(&mut vm);
    let effect = Effect { input: 11, output: 12 };
    let r = vm.reduce(p, performed(EffectCall::Defer { input: integer(6), effect })).unwrap();
    assert!(matches!(r.output, ProcessOutput::Performed { ref input, effect: e } if **input == Value::Integer(6) && e == effect));
    assert!(matches!(r.feed, Feed::Nothing));
    assert!(is_running(&process(&vm, p).status()));
}

#[test]
fn immediate_and_running_steps() {
    let mut vm = Vm::new();
    let p = spawn(&mut vm);
    let r = vm.reduce(p, performed(EffectCall::Immediate { output: integer(13) })).unwrap();
    assert_eq!(fed_value(&r), Value::Integer(13));
    let r = vm.reduce(p, idle()).unwrap();
    assert!(matches!(r.output, ProcessOutput::Running));
    assert!(matches!(r.feed, Feed::Nothing));
}

#[test]
fn reduce_of_missing_process_is_none() {
    let mut vm = Vm::new();
    assert!(vm.reduce(3, idle()).is_none());
}

#[test]
fn spawn_allocates_fresh_ids() {
    let mut vm = Vm::new();
    let p = spawn(&mut vm);
    let r = vm
        .reduce(p, performed(EffectCall::Spawn { output: integer(0), manifest: integer(21) }))
        .unwrap();
    assert!(matches!(r.output, ProcessOutput::Running));
    assert_eq!(vm.process_count(), 2);
    let child = process(&vm, p + 1);
    assert_eq!(child.id(), p + 1);
    assert!(is_running(&child.status()));
    assert_eq!(vm.info().next_id, p + 2);
}

#[test]
fn kv_get_and_update() {
    let mut vm = Vm::new();
    let p = spawn(&mut vm);
    let r = vm.reduce(p, performed(EffectCall::GetKv { key: 1 })).unwrap();
    assert!(matches!(r.feed, Feed::Kv(None)));
    let r = vm.reduce(p, performed(EffectCall::UpdateKv { key: 1, value: integer(5) })).unwrap();
    assert!(matches!(r.feed, Feed::Kv(None)));
    let r = vm.reduce(p, performed(EffectCall::UpdateKv { key: 1, value: integer(6) })).unwrap();
    assert!(matches!(r.feed, Feed::Kv(Some(ref v)) if **v == Value::Integer(5)));
    let r = vm.reduce(p, performed(EffectCall::GetKv { key: 1 })).unwrap();
    assert!(matches!(r.feed, Feed::Kv(Some(ref v)) if **v == Value::Integer(6)));
}

#[test]
fn flags_of_self_and_missing() {
    let mut vm = Vm::new();
    let p = spawn(&mut vm);
    let r = vm.reduce(p, performed(EffectCall::GetFlags { target: p })).unwrap();
    assert!(matches!(r.feed, Feed::Flags(Some(f)) if f.priority() == Priority::Default));
    let r = vm
        .reduce(p, performed(EffectCall::UpdateFlags { target: p, flags: DProcessFlags::new(Priority::High) }))
        .unwrap();
    assert!(matches!(r.feed, Feed::Flags(Some(f)) if f.priority() == Priority::Default));
    assert_eq!(process(&vm, p).flags().priority(), Priority::High);
    let r = vm.reduce(p, performed(EffectCall::GetFlags { target: 40 })).unwrap();
    assert!(matches!(r.feed, Feed::Flags(None)));
}

#[test]
fn monitor_and_demonitor() {
    let mut vm = Vm::new();
    let a = spawn(&mut vm);
    let b = spawn(&mut vm);
    vm.reduce(a, performed(EffectCall::Monitor { output: integer(0), target: b })).unwrap();
    assert!(process(&vm, b).is_monitored_by(a));
    assert!(!process(&vm, a).is_monitored_by(b));
    vm.reduce(a, performed(EffectCall::Demonitor { output: integer(0), target: b })).unwrap();
    assert!(!process(&vm, b).is_monitored_by(a));
    let r = vm.reduce(a, performed(EffectCall::Monitor { output: integer(0), target: 70 })).unwrap();
    assert!(matches!(r.output, ProcessOutput::Running));
}

#[test]
fn process_and_vm_info() {
    let mut vm = Vm::new();
    let p = spawn(&mut vm);
    spawn(&mut vm);
    let r = vm.reduce(p, performed(EffectCall::ProcessInfo)).unwrap();
    match r.feed {
        Feed::Info(info) => {
            assert_eq!(info.id, p);
            assert!(is_running(&info.status));
            assert_eq!(info.attachment, ProcessorAttachment::Detached);
        }
        other => panic!("expected info, got {:?}", other),
    }
    let r = vm.reduce(p, performed(EffectCall::VmInfo)).unwrap();
    assert!(matches!(r.feed, Feed::Vm(info) if info.process_count == 2 && info.next_id == 2));
}

#[test]
fn attachment_is_kept() {
    let mut vm = Vm::new();
    let p = spawn(&mut vm);
    assert_eq!(process(&vm, p).attachment(), ProcessorAttachment::Detached);
    vm.set_attachment(p, ProcessorAttachment::Attached(ProcessorId(2)));
    assert_eq!(process(&vm, p).attachment(), ProcessorAttachment::Attached(ProcessorId(2)));
    assert_eq!(ProcessorAttachment::Attached(ProcessorId(3)).processor(), Some(ProcessorId(3)));
    assert_eq!(ProcessorAttachment::default().processor(), None);
}
