use std::sync::Arc;
use vstd::prelude::*;

use crate::dprocess::{DProcessInfo, ProcessModel};
use crate::effect::{
    running, EffectCall, Feed, FeedModel, InterpreterOutput, InterpreterStep, Reduction,
    ReductionModel,
};
use crate::status::{DProcessStatus, ProcessOutput};
use crate::value::ProcessId;
use crate::vm::{Vm, VmModel};

verus! {

/// What handling `call` for process `id` does to the machine, and what it
/// reports.
pub open spec fn handle_model(vm: VmModel, id: ProcessId, call: EffectCall) -> (VmModel, ReductionModel) {
    let p = vm.processes[id];
    match call {
        EffectCall::Immediate { output } => (vm, running(FeedModel::Value(output))),
        EffectCall::Spawn { output, manifest } => (vm.spawn(manifest), running(FeedModel::Value(output))),
        EffectCall::Defer { input, effect } => (
            vm,
            ReductionModel { output: ProcessOutput::Performed { input, effect }, feed: FeedModel::Nothing },
        ),
        EffectCall::SendMessage { output, to, ty, message } => (
            vm.deliver(to, ty, message),
            running(FeedModel::Value(output)),
        ),
        EffectCall::ReceiveMessage { ty } => if p.mailbox[ty].len() > 0 {
            (
                vm.with_process(
                    id,
                    ProcessModel { mailbox: p.mailbox.insert(ty, p.mailbox[ty].drop_first()), ..p },
                ),
                running(FeedModel::Value(p.mailbox[ty][0])),
            )
        } else {
            (
                vm.with_process(id, ProcessModel { status: DProcessStatus::WaitingForMessage(ty), ..p }),
                ReductionModel { output: ProcessOutput::WaitingForMessage, feed: FeedModel::Nothing },
            )
        },
        EffectCall::FlushMailbox { ty } => (
            vm.with_process(id, ProcessModel { mailbox: p.mailbox.insert(ty, Seq::empty()), ..p }),
            running(FeedModel::Messages(p.mailbox[ty])),
        ),
        EffectCall::Subscribe { output, ty } => (vm.subscribe(id, ty), running(FeedModel::Value(output))),
        EffectCall::Publish { ty, value } => (vm.publish(ty, value), running(FeedModel::Unit)),
        EffectCall::GetKv { key } => (
            vm,
            running(FeedModel::Kv(if p.kv.contains_key(key) { Some(p.kv[key]) } else { None })),
        ),
        EffectCall::UpdateKv { key, value } => (
            vm.with_process(id, ProcessModel { kv: p.kv.insert(key, value), ..p }),
            running(FeedModel::Kv(if p.kv.contains_key(key) { Some(p.kv[key]) } else { None })),
        ),
        EffectCall::GetFlags { target } => (vm, running(FeedModel::Flags(vm.flags_of(target)))),
        EffectCall::UpdateFlags { target, flags } => (
            vm.set_flags(target, flags),
            running(FeedModel::Flags(vm.flags_of(target))),
        ),
        EffectCall::AddTimer { output, name, timer } => (
            vm.with_process(id, ProcessModel { timers: p.timers.insert(name@, timer), ..p }),
            running(FeedModel::Value(output)),
        ),
        EffectCall::RemoveTimer { output, name } => (
            vm.with_process(id, ProcessModel { timers: p.timers.remove(name@), ..p }),
            running(FeedModel::Value(output)),
        ),
        EffectCall::Monitor { output, target } => (vm.monitor(id, target), running(FeedModel::Value(output))),
        EffectCall::Demonitor { output, target } => (
            vm.demonitor(id, target),
            running(FeedModel::Value(output)),
        ),
        EffectCall::ProcessInfo => (
            vm,
            running(
                FeedModel::Info(
                    DProcessInfo { id, status: p.status, flags: p.flags, attachment: p.attachment },
                ),
            ),
        ),
        EffectCall::VmInfo => (vm, running(FeedModel::Vm(vm.info()))),
        EffectCall::Link { output, first, second } => (vm.link(first, second), running(FeedModel::Value(output))),
        EffectCall::Unlink { output, first, second } => (
            vm.unlink(first, second),
            running(FeedModel::Value(output)),
        ),
        EffectCall::Register { output, name, id: target } => (
            vm.register(name@, target),
            running(FeedModel::Value(output)),
        ),
        EffectCall::Unregister { output, name } => (vm.unregister(name@), running(FeedModel::Value(output))),
        EffectCall::Whereis { name } => (vm, running(FeedModel::Location(vm.whereis(name@)))),
        EffectCall::Halt { output, target, ty, reason } => (
            vm.halt(target, ty, reason),
            running(FeedModel::Value(output)),
        ),
    }
}

/// What one reduction of process `id` does, given what its interpreter's
/// step came to; `None` when there is no such process. The step is looked
/// at only while the process is running.
pub open spec fn reduce_model(vm: VmModel, id: ProcessId, step: InterpreterStep) -> (VmModel, Option<ReductionModel>) {
    if !vm.processes.contains_key(id) {
        (vm, None)
    } else {
        let p = vm.processes[id];
        match p.status {
            DProcessStatus::Returned(v) => (
                vm,
                Some(ReductionModel { output: ProcessOutput::Returned(v), feed: FeedModel::Nothing }),
            ),
            DProcessStatus::Crashed(e) => (
                vm,
                Some(ReductionModel { output: ProcessOutput::Crashed(e), feed: FeedModel::Nothing }),
            ),
            DProcessStatus::Halted { ty, reason } => (
                vm,
                Some(
                    ReductionModel {
                        output: ProcessOutput::Halted { ty, reason },
                        feed: FeedModel::Nothing,
                    },
                ),
            ),
            DProcessStatus::WaitingForMessage(ty) => if p.mailbox[ty].len() > 0 {
                (
                    vm.with_process(
                        id,
                        ProcessModel {
                            status: DProcessStatus::Running,
                            mailbox: p.mailbox.insert(ty, p.mailbox[ty].drop_first()),
                            ..p
                        },
                    ),
                    Some(running(FeedModel::Value(p.mailbox[ty][0]))),
                )
            } else {
                (
                    vm,
                    Some(
                        ReductionModel {
                            output: ProcessOutput::WaitingForMessage,
                            feed: FeedModel::Nothing,
                        },
                    ),
                )
            },
            DProcessStatus::Running => match step {
                Err(e) => (
                    vm.with_process(id, ProcessModel { status: DProcessStatus::Crashed(e), ..p }),
                    Some(ReductionModel { output: ProcessOutput::Crashed(e), feed: FeedModel::Nothing }),
                ),
                Ok(InterpreterOutput::Returned(v)) => (
                    vm.with_process(id, ProcessModel { status: DProcessStatus::Returned(v), ..p }),
                    Some(
                        ReductionModel { output: ProcessOutput::Returned(v), feed: FeedModel::Nothing },
                    ),
                ),
                Ok(InterpreterOutput::Running) => (
                    vm,
                    Some(ReductionModel { output: ProcessOutput::Running, feed: FeedModel::Nothing }),
                ),
                Ok(InterpreterOutput::Performed(call)) => {
                    let (next, r) = handle_model(vm, id, call);
                    (next, Some(r))
                },
            },
        }
    }
}

pub open spec fn reduction_view(r: Option<Reduction>) -> Option<ReductionModel> {
    match r {
        Some(x) => Some(x@),
        None => None,
    }
}

impl Vm {
    /// Resolves the effect that process `id` performed, as `call`.
    pub fn handle_effect(&mut self, id: ProcessId, call: EffectCall) -> (r: Reduction)
        requires
            old(self)@.wf(),
            old(self)@.processes.contains_key(id),
        ensures
            final(self)@.wf(),
            (final(self)@, r@) == handle_model(old(self)@, id, call),
    {
        match call {
            EffectCall::Immediate { output } => Reduction { output: ProcessOutput::Running, feed: Feed::Value(output) },
            EffectCall::Spawn { output, manifest } => {
                let _ = self.spawn(manifest);
                Reduction { output: ProcessOutput::Running, feed: Feed::Value(output) }
            },
            EffectCall::Defer { input, effect } => Reduction {
                output: ProcessOutput::Performed { input, effect },
                feed: Feed::Nothing,
            },
            EffectCall::SendMessage { output, to, ty, message } => {
                self.send_message(to, ty, message);
                Reduction { output: ProcessOutput::Running, feed: Feed::Value(output) }
            },
            EffectCall::ReceiveMessage { ty } => {
                match self.pop_message(id, ty) {
                    Some(message) => Reduction { output: ProcessOutput::Running, feed: Feed::Value(message) },
                    None => {
                        self.set_status(id, DProcessStatus::WaitingForMessage(ty));
                        Reduction { output: ProcessOutput::WaitingForMessage, feed: Feed::Nothing }
                    },
                }
            },
            EffectCall::FlushMailbox { ty } => {
                let messages = self.drain_messages(id, ty);
                Reduction { output: ProcessOutput::Running, feed: Feed::Messages(messages) }
            },
            EffectCall::Subscribe { output, ty } => {
                self.subscribe(id, ty);
                Reduction { output: ProcessOutput::Running, feed: Feed::Value(output) }
            },
            EffectCall::Publish { ty, value } => {
                self.publish(ty, value);
                Reduction { output: ProcessOutput::Running, feed: Feed::Unit }
            },
            EffectCall::GetKv { key } => {
                let stored = self.kv_get(id, key);
                Reduction { output: ProcessOutput::Running, feed: Feed::Kv(stored) }
            },
            EffectCall::UpdateKv { key, value } => {
                let replaced = self.kv_insert(id, key, value);
                Reduction { output: ProcessOutput::Running, feed: Feed::Kv(replaced) }
            },
            EffectCall::GetFlags { target } => {
                let flags = self.get_flags(target);
                Reduction { output: ProcessOutput::Running, feed: Feed::Flags(flags) }
            },
            EffectCall::UpdateFlags { target, flags } => {
                let replaced = self.get_flags(target);
                self.set_flags(target, flags);
                Reduction { output: ProcessOutput::Running, feed: Feed::Flags(replaced) }
            },
            EffectCall::AddTimer { output, name, timer } => {
                self.add_timer(id, name, timer);
                Reduction { output: ProcessOutput::Running, feed: Feed::Value(output) }
            },
            EffectCall::RemoveTimer { output, name } => {
                self.remove_timer(id, &name);
                Reduction { output: ProcessOutput::Running, feed: Feed::Value(output) }
            },
            EffectCall::Monitor { output, target } => {
                self.monitor(id, target);
                Reduction { output: ProcessOutput::Running, feed: Feed::Value(output) }
            },
            EffectCall::Demonitor { output, target } => {
                self.demonitor(id, target);
                Reduction { output: ProcessOutput::Running, feed: Feed::Value(output) }
            },
            EffectCall::ProcessInfo => {
                let info = self.process_info(id);
                Reduction { output: ProcessOutput::Running, feed: Feed::Info(info) }
            },
            EffectCall::VmInfo => {
                let info = self.info();
                Reduction { output: ProcessOutput::Running, feed: Feed::Vm(info) }
            },
            EffectCall::Link { output, first, second } => {
                self.link(first, second);
                Reduction { output: ProcessOutput::Running, feed: Feed::Value(output) }
            },
            EffectCall::Unlink { output, first, second } => {
                self.unlink(first, second);
                Reduction { output: ProcessOutput::Running, feed: Feed::Value(output) }
            },
            EffectCall::Register { output, name, id: target } => {
                self.register(name, target);
                Reduction { output: ProcessOutput::Running, feed: Feed::Value(output) }
            },
            EffectCall::Unregister { output, name } => {
                self.unregister(&name);
                Reduction { output: ProcessOutput::Running, feed: Feed::Value(output) }
            },
            EffectCall::Whereis { name } => {
                let found = self.whereis(&name);
                Reduction { output: ProcessOutput::Running, feed: Feed::Location(found) }
            },
            EffectCall::Halt { output, target, ty, reason } => {
                self.halt(target, ty, reason);
                Reduction { output: ProcessOutput::Running, feed: Feed::Value(output) }
            },
        }
    }

    /// Runs one reduction of process `id`. `step` is what the process's
    /// interpreter came to when driven for its budget; it is consulted only
    /// while the process is running. `None` when there is no process `id`.
    pub fn reduce(&mut self, id: ProcessId, step: InterpreterStep) -> (r: Option<Reduction>)
        requires
            old(self)@.wf(),
        ensures
            final(self)@.wf(),
            (final(self)@, reduction_view(r)) == reduce_model(old(self)@, id, step),
    {
        let status = match self.get_dprocess(id) {
            Some(p) => p.status(),
            None => {
                return None;
            },
        };
        match status {
            DProcessStatus::Returned(v) => Some(Reduction { output: ProcessOutput::Returned(v), feed: Feed::Nothing }),
            DProcessStatus::Crashed(e) => Some(Reduction { output: ProcessOutput::Crashed(e), feed: Feed::Nothing }),
            DProcessStatus::Halted { ty, reason } => Some(Reduction {
                output: ProcessOutput::Halted { ty, reason },
                feed: Feed::Nothing,
            }),
            DProcessStatus::WaitingForMessage(ty) => {
                match self.pop_message(id, ty) {
                    Some(message) => {
                        self.set_status(id, DProcessStatus::Running);
                        assert(self@.processes =~= reduce_model(old(self)@, id, step).0.processes);
                        Some(Reduction { output: ProcessOutput::Running, feed: Feed::Value(message) })
                    },
                    None => Some(Reduction { output: ProcessOutput::WaitingForMessage, feed: Feed::Nothing }),
                }
            },
            DProcessStatus::Running => match step {
                Err(e) => {
                    self.set_status(id, DProcessStatus::Crashed(e.clone()));
                    Some(Reduction { output: ProcessOutput::Crashed(e), feed: Feed::Nothing })
                },
                Ok(InterpreterOutput::Returned(v)) => {
                    self.set_status(id, DProcessStatus::Returned(v.clone()));
                    Some(Reduction { output: ProcessOutput::Returned(v), feed: Feed::Nothing })
                },
                Ok(InterpreterOutput::Running) => Some(Reduction { output: ProcessOutput::Running, feed: Feed::Nothing }),
                Ok(InterpreterOutput::Performed(call)) => Some(self.handle_effect(id, call)),
            },
        }
    }
}

} // verus!
