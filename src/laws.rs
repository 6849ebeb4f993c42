use vstd::prelude::*;

use crate::effect::{running, EffectCall, FeedModel, InterpreterOutput, InterpreterStep, ReductionModel};
use crate::reduce::{handle_model, reduce_model};
use crate::status::{allowed_transition, DProcessStatus, ProcessOutput};
use crate::value::{ProcessId, SharedValue, TypeId};
use crate::vm::VmModel;

verus! {

/// A reduction moves every process only along the state machine, keeps
/// every process, and never changes a finished one.
pub proof fn lemma_reduce_follows_state_machine(vm: VmModel, id: ProcessId, step: InterpreterStep)
    requires
        vm.wf(),
    ensures
        forall|q: ProcessId| #[trigger]
            vm.processes.contains_key(q) ==> reduce_model(vm, id, step).0.processes.contains_key(q)
                && allowed_transition(
                vm.processes[q].status,
                reduce_model(vm, id, step).0.processes[q].status,
            ),
        forall|q: ProcessId| #[trigger]
            vm.processes.contains_key(q) && vm.processes[q].status.spec_is_terminal()
                ==> reduce_model(vm, id, step).0.processes[q].status == vm.processes[q].status,
{
}

/// Receiving on an empty queue parks the process on that type and leaves
/// its mailbox alone; a message of that type sent by another process is
/// handed over by the next reduction, which runs the process again.
pub proof fn lemma_receive_waits_then_resumes(
    vm: VmModel,
    p: ProcessId,
    q: ProcessId,
    ty: TypeId,
    output: SharedValue,
    message: SharedValue,
    later: InterpreterStep,
)
    requires
        vm.wf(),
        p != q,
        vm.processes.contains_key(p),
        vm.processes.contains_key(q),
        vm.processes[p].status == DProcessStatus::Running,
        vm.processes[q].status == DProcessStatus::Running,
        vm.processes[p].mailbox[ty].len() == 0,
    ensures
        ({
            let (vm1, r1) = reduce_model(
                vm,
                p,
                Ok(InterpreterOutput::Performed(EffectCall::ReceiveMessage { ty })),
            );
            let (vm2, r2) = reduce_model(
                vm1,
                q,
                Ok(InterpreterOutput::Performed(EffectCall::SendMessage { output, to: p, ty, message })),
            );
            let (vm3, r3) = reduce_model(vm2, p, later);
            &&& r1 == Some(
                ReductionModel { output: ProcessOutput::WaitingForMessage, feed: FeedModel::Nothing },
            )
            &&& vm1.processes[p].status == DProcessStatus::WaitingForMessage(ty)
            &&& vm1.processes[p].mailbox == vm.processes[p].mailbox
            &&& r2 == Some(running(FeedModel::Value(output)))
            &&& r3 == Some(running(FeedModel::Value(message)))
            &&& vm3.processes[p].status == DProcessStatus::Running
            &&& vm3.processes[p].mailbox[ty] == vm.processes[p].mailbox[ty]
        }),
{
    let (vm1, r1) = reduce_model(vm, p, Ok(InterpreterOutput::Performed(EffectCall::ReceiveMessage { ty })));
    let (vm2, r2) = reduce_model(
        vm1,
        q,
        Ok(InterpreterOutput::Performed(EffectCall::SendMessage { output, to: p, ty, message })),
    );
    assert(vm2.processes[p].mailbox[ty] =~= seq![message]);
    let (vm3, r3) = reduce_model(vm2, p, later);
    assert(vm3.processes[p].mailbox[ty] =~= vm.processes[p].mailbox[ty]);
}

/// A waiting process that has a message of its type queued gets the oldest
/// one.
pub proof fn lemma_waiting_takes_oldest(vm: VmModel, p: ProcessId, ty: TypeId, step: InterpreterStep)
    requires
        vm.wf(),
        vm.processes.contains_key(p),
        vm.processes[p].status == DProcessStatus::WaitingForMessage(ty),
        vm.processes[p].mailbox[ty].len() > 0,
    ensures
        reduce_model(vm, p, step).1 == Some(
            running(FeedModel::Value(vm.processes[p].mailbox[ty][0])),
        ),
        reduce_model(vm, p, step).0.processes[p].mailbox[ty] == vm.processes[p].mailbox[ty].drop_first(),
        reduce_model(vm, p, step).0.processes[p].status == DProcessStatus::Running,
{
}

/// Flushing hands over the whole queue of a type, oldest first, and leaves
/// it empty; messages sent before come out in the order they were sent.
pub proof fn lemma_flush_drains_in_order(
    vm: VmModel,
    p: ProcessId,
    ty: TypeId,
    first: SharedValue,
    second: SharedValue,
)
    requires
        vm.wf(),
        vm.processes.contains_key(p),
    ensures
        handle_model(vm, p, EffectCall::FlushMailbox { ty }).1 == running(
            FeedModel::Messages(vm.processes[p].mailbox[ty]),
        ),
        handle_model(vm, p, EffectCall::FlushMailbox { ty }).0.processes[p].mailbox[ty] == Seq::<
            SharedValue,
        >::empty(),
        ({
            let sent = vm.deliver(p, ty, first).deliver(p, ty, second);
            handle_model(sent, p, EffectCall::FlushMailbox { ty }).1 == running(
                FeedModel::Messages(vm.processes[p].mailbox[ty].push(first).push(second)),
            )
        }),
{
}

/// Flushing a type that has nothing queued hands over an empty list.
pub proof fn lemma_flush_absent_is_empty(vm: VmModel, p: ProcessId, ty: TypeId)
    requires
        vm.wf(),
        vm.processes.contains_key(p),
        vm.processes[p].mailbox[ty].len() == 0,
    ensures
        handle_model(vm, p, EffectCall::FlushMailbox { ty }).1 == running(
            FeedModel::Messages(Seq::empty()),
        ),
{
    assert(vm.processes[p].mailbox[ty] =~= Seq::<SharedValue>::empty());
}

/// Linking two existing processes records the link on both sides; linking
/// with a missing one tells the existing one and records no link.
pub proof fn lemma_link_symmetric(vm: VmModel, a: ProcessId, b: ProcessId)
    requires
        vm.wf(),
    ensures
        vm.processes.contains_key(a) && vm.processes.contains_key(b) ==> {
            &&& vm.link(a, b).processes[a].links.contains(b)
            &&& vm.link(a, b).processes[b].links.contains(a)
        },
        vm.processes.contains_key(a) && !vm.processes.contains_key(b) ==> {
            &&& vm.link(a, b).processes[a].link_failures == vm.processes[a].link_failures.push(b)
            &&& forall|q: ProcessId| #[trigger]
                vm.processes.contains_key(q) ==> vm.link(a, b).processes[q].links
                    == vm.processes[q].links
        },
{
}

/// A name registered for an id is found until it is unregistered.
pub proof fn lemma_register_whereis(vm: VmModel, name: Seq<char>, id: ProcessId)
    ensures
        vm.register(name, id).whereis(name) == Some(id),
        vm.register(name, id).unregister(name).whereis(name) is None,
        vm.unregister(name).whereis(name) is None,
{
}

/// Publishing queues the value for exactly the processes subscribed when
/// it starts; a process that subscribes afterwards gets nothing from it.
pub proof fn lemma_publish_reaches_subscribers(
    vm: VmModel,
    ty: TypeId,
    value: SharedValue,
    late: ProcessId,
)
    requires
        vm.wf(),
    ensures
        forall|q: ProcessId| #[trigger]
            vm.processes.contains_key(q) ==> vm.publish(ty, value).processes.contains_key(q) && (
            if vm.subscriptions[ty].contains(q) {
                vm.publish(ty, value).processes[q].mailbox[ty] == vm.processes[q].mailbox[ty].push(
                    value,
                )
            } else {
                vm.publish(ty, value).processes[q] == vm.processes[q]
            }),
        vm.processes.contains_key(late) && !vm.subscriptions[ty].contains(late) ==> vm.publish(
            ty,
            value,
        ).subscribe(late, ty).processes[late] == vm.processes[late],
{
}

} // verus!
