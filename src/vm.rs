use std::collections::HashMap;
use vstd::prelude::*;

use crate::dprocess::{fresh_process, DProcess, DProcessInfo, ProcessModel};
use crate::flags::DProcessFlags;
use crate::processor_attachment::ProcessorAttachment;
use crate::status::DProcessStatus;
use crate::table::NameTable;
use crate::timer::Timer;
use crate::value::{ProcessId, SharedValue, TypeId};

verus! {

broadcast use vstd::std_specs::hash::group_hash_axioms;

/// The shared registry: process table, name registry and subscriptions.
pub struct Vm {
    processes: HashMap<ProcessId, DProcess>,
    names: NameTable<ProcessId>,
    subscriptions: HashMap<TypeId, Vec<ProcessId>>,
    next_id: ProcessId,
}

/// A read-only snapshot of the virtual machine.
#[derive(Debug, Clone, Copy, PartialEq, Eq, Structural)]
pub struct VmInfo {
    pub process_count: usize,
    pub next_id: ProcessId,
}

/// The abstract state of the virtual machine.
pub struct VmModel {
    pub processes: Map<ProcessId, ProcessModel>,
    pub names: Map<Seq<char>, ProcessId>,
    /// Subscribers of each type, in the order they subscribed.
    pub subscriptions: Map<TypeId, Seq<ProcessId>>,
    /// The id the next spawned process gets.
    pub next_id: ProcessId,
}

impl VmModel {
    /// Each process is filed under its own id, below the next id to hand
    /// out, and nobody is subscribed twice to a type. `Vm::new` establishes
    /// this and every method of `Vm` keeps it.
    pub open spec fn wf(self) -> bool {
        &&& forall|id: ProcessId| #[trigger]
            self.processes.contains_key(id) ==> self.processes[id].id == id && id < self.next_id
        &&& forall|ty: TypeId| (#[trigger] self.subscriptions[ty]).no_duplicates()
    }

    pub open spec fn info(self) -> VmInfo {
        VmInfo { process_count: self.processes.len() as usize, next_id: self.next_id }
    }

    pub open spec fn with_process(self, id: ProcessId, p: ProcessModel) -> VmModel {
        VmModel { processes: self.processes.insert(id, p), ..self }
    }

    pub open spec fn spawn(self, manifest: SharedValue) -> VmModel {
        if self.next_id < u64::MAX {
            VmModel {
                processes: self.processes.insert(self.next_id, fresh_process(self.next_id, manifest)),
                next_id: (self.next_id + 1) as u64,
                ..self
            }
        } else {
            self
        }
    }

    pub open spec fn deliver(self, to: ProcessId, ty: TypeId, message: SharedValue) -> VmModel {
        if self.processes.contains_key(to) {
            let p = self.processes[to];
            self.with_process(
                to,
                ProcessModel { mailbox: p.mailbox.insert(ty, p.mailbox[ty].push(message)), ..p },
            )
        } else {
            self
        }
    }

    pub open spec fn subscribe(self, id: ProcessId, ty: TypeId) -> VmModel {
        if self.subscriptions[ty].contains(id) {
            self
        } else {
            VmModel {
                subscriptions: self.subscriptions.insert(ty, self.subscriptions[ty].push(id)),
                ..self
            }
        }
    }

    /// Every process subscribed to `ty` gets `value` queued under `ty`.
    pub open spec fn publish(self, ty: TypeId, value: SharedValue) -> VmModel {
        VmModel {
            processes: Map::new(
                |id: ProcessId| self.processes.contains_key(id),
                |id: ProcessId|
                    if self.subscriptions[ty].contains(id) {
                        ProcessModel {
                            mailbox: self.processes[id].mailbox.insert(
                                ty,
                                self.processes[id].mailbox[ty].push(value),
                            ),
                            ..self.processes[id]
                        }
                    } else {
                        self.processes[id]
                    },
            ),
            ..self
        }
    }

    pub open spec fn register(self, name: Seq<char>, id: ProcessId) -> VmModel {
        VmModel { names: self.names.insert(name, id), ..self }
    }

    pub open spec fn unregister(self, name: Seq<char>) -> VmModel {
        VmModel { names: self.names.remove(name), ..self }
    }

    pub open spec fn whereis(self, name: Seq<char>) -> Option<ProcessId> {
        if self.names.contains_key(name) {
            Some(self.names[name])
        } else {
            None
        }
    }

    pub open spec fn flags_of(self, id: ProcessId) -> Option<DProcessFlags> {
        if self.processes.contains_key(id) {
            Some(self.processes[id].flags)
        } else {
            None
        }
    }

    pub open spec fn set_flags(self, id: ProcessId, flags: DProcessFlags) -> VmModel {
        if self.processes.contains_key(id) {
            self.with_process(id, ProcessModel { flags, ..self.processes[id] })
        } else {
            self
        }
    }

    /// Links both ways when both exist; otherwise the one that exists is
    /// told of the missing one.
    pub open spec fn link(self, a: ProcessId, b: ProcessId) -> VmModel {
        if self.processes.contains_key(a) && self.processes.contains_key(b) {
            let s1 = self.with_process(
                a,
                ProcessModel { links: self.processes[a].links.insert(b), ..self.processes[a] },
            );
            s1.with_process(
                b,
                ProcessModel { links: s1.processes[b].links.insert(a), ..s1.processes[b] },
            )
        } else if self.processes.contains_key(a) {
            self.with_process(
                a,
                ProcessModel {
                    link_failures: self.processes[a].link_failures.push(b),
                    ..self.processes[a]
                },
            )
        } else if self.processes.contains_key(b) {
            self.with_process(
                b,
                ProcessModel {
                    link_failures: self.processes[b].link_failures.push(a),
                    ..self.processes[b]
                },
            )
        } else {
            self
        }
    }

    pub open spec fn unlink(self, a: ProcessId, b: ProcessId) -> VmModel {
        if self.processes.contains_key(a) && self.processes.contains_key(b) {
            let s1 = self.with_process(
                a,
                ProcessModel { links: self.processes[a].links.remove(b), ..self.processes[a] },
            );
            s1.with_process(
                b,
                ProcessModel { links: s1.processes[b].links.remove(a), ..s1.processes[b] },
            )
        } else {
            self
        }
    }

    pub open spec fn monitor(self, watcher: ProcessId, target: ProcessId) -> VmModel {
        if self.processes.contains_key(target) {
            self.with_process(
                target,
                ProcessModel {
                    monitors: self.processes[target].monitors.insert(watcher),
                    ..self.processes[target]
                },
            )
        } else {
            self
        }
    }

    pub open spec fn demonitor(self, watcher: ProcessId, target: ProcessId) -> VmModel {
        if self.processes.contains_key(target) {
            self.with_process(
                target,
                ProcessModel {
                    monitors: self.processes[target].monitors.remove(watcher),
                    ..self.processes[target]
                },
            )
        } else {
            self
        }
    }

    /// Halts a process that exists and has not finished.
    pub open spec fn halt(self, target: ProcessId, ty: TypeId, reason: SharedValue) -> VmModel {
        if self.processes.contains_key(target) && !self.processes[target].status.spec_is_terminal() {
            self.with_process(
                target,
                ProcessModel {
                    status: DProcessStatus::Halted { ty, reason },
                    ..self.processes[target]
                },
            )
        } else {
            self
        }
    }
}

impl View for Vm {
    type V = VmModel;

    closed spec fn view(&self) -> VmModel {
        VmModel {
            processes: Map::new(
                |id: ProcessId| self.processes@.contains_key(id),
                |id: ProcessId| self.processes@[id]@,
            ),
            names: self.names@,
            subscriptions: Map::new(
                |ty: TypeId| true,
                |ty: TypeId|
                    if self.subscriptions@.contains_key(ty) {
                        self.subscriptions@[ty]@
                    } else {
                        Seq::empty()
                    },
            ),
            next_id: self.next_id,
        }
    }
}

impl Vm {
    pub fn new() -> (r: Self)
        ensures
            r@.wf(),
            r@.processes == Map::<ProcessId, ProcessModel>::empty(),
            r@.names == Map::<Seq<char>, ProcessId>::empty(),
            forall|ty: TypeId| #[trigger] r@.subscriptions[ty] == Seq::<ProcessId>::empty(),
            r@.next_id == 0,
    {
        let r = Vm {
            processes: HashMap::new(),
            names: NameTable::new(),
            subscriptions: HashMap::new(),
            next_id: 0,
        };
        assert(r@.processes =~= Map::<ProcessId, ProcessModel>::empty());
        r
    }

    /// Creates a process from `manifest`; `None` once every id is taken.
    pub fn spawn(&mut self, manifest: SharedValue) -> (r: Option<ProcessId>)
        requires
            old(self)@.wf(),
        ensures
            final(self)@.wf(),
            final(self)@ == old(self)@.spawn(manifest),
            r == (if old(self)@.next_id < u64::MAX {
                Some(old(self)@.next_id)
            } else {
                None
            }),
    {
        if self.next_id < u64::MAX {
            let id = self.next_id;
            let p = DProcess::new(id, manifest);
            self.processes.insert(id, p);
            self.next_id = id + 1;
            assert(self@.processes =~= old(self)@.spawn(manifest).processes);
            Some(id)
        } else {
            None
        }
    }

    pub fn contains(&self, id: ProcessId) -> (r: bool)
        ensures
            r == self@.processes.contains_key(id),
    {
        self.processes.contains_key(&id)
    }

    /// The process with `id`, if any.
    pub fn get_dprocess(&self, id: ProcessId) -> (r: Option<&DProcess>)
        ensures
            match r {
                Some(p) => self@.processes.contains_key(id) && p@ == self@.processes[id],
                None => !self@.processes.contains_key(id),
            },
    {
        self.processes.get(&id)
    }

    pub fn info(&self) -> (r: VmInfo)
        ensures
            r == self@.info(),
    {
        VmInfo { process_count: self.process_count(), next_id: self.next_id }
    }

    pub(crate) fn process_info(&self, id: ProcessId) -> (r: DProcessInfo)
        requires
            self@.wf(),
            self@.processes.contains_key(id),
        ensures
            r == (DProcessInfo {
                id,
                status: self@.processes[id].status,
                flags: self@.processes[id].flags,
                attachment: self@.processes[id].attachment,
            }),
    {
        let p = self.processes.get(&id).unwrap();
        p.info()
    }

    /// How many processes the table holds.
    pub fn process_count(&self) -> (r: usize)
        ensures
            r == self@.processes.len(),
    {
        assert(self@.processes.dom() =~= self.processes@.dom());
        self.processes.len()
    }

    /// Queues `message` under `ty` for `to`; dropped when `to` does not exist.
    pub fn send_message(&mut self, to: ProcessId, ty: TypeId, message: SharedValue)
        requires
            old(self)@.wf(),
        ensures
            final(self)@.wf(),
            final(self)@ == old(self)@.deliver(to, ty, message),
    {
        match self.processes.remove(&to) {
            Some(mut p) => {
                p.enqueue(ty, message);
                self.processes.insert(to, p);
                assert(self@.processes =~= old(self)@.deliver(to, ty, message).processes);
            },
            None => {
                assert(self@.processes =~= old(self)@.processes);
            },
        }
    }

    pub fn subscribe(&mut self, id: ProcessId, ty: TypeId)
        requires
            old(self)@.wf(),
        ensures
            final(self)@.wf(),
            final(self)@ == old(self)@.subscribe(id, ty),
    {
        let mut subs = match self.subscriptions.remove(&ty) {
            Some(v) => v,
            None => Vec::new(),
        };
        assert(subs@ == old(self)@.subscriptions[ty]);
        let present = contains_id(&subs, id);
        if !present {
            subs.push(id);
        }
        self.subscriptions.insert(ty, subs);
        assert(self@.subscriptions =~= old(self)@.subscribe(id, ty).subscriptions);
    }

    /// Queues `value` under `ty` for every process subscribed to `ty` now.
    pub fn publish(&mut self, ty: TypeId, value: SharedValue)
        requires
            old(self)@.wf(),
        ensures
            final(self)@.wf(),
            final(self)@ == old(self)@.publish(ty, value),
    {
        let ghost start = self@;
        match self.subscriptions.get(&ty) {
            Some(subs) => {
                assert(subs@ == start.subscriptions[ty]);
                let mut i: usize = 0;
                while i < subs.len()
                    invariant
                        i <= subs@.len(),
                        subs@ == start.subscriptions[ty],
                        subs@.no_duplicates(),
                        self@.names == start.names,
                        self@.subscriptions == start.subscriptions,
                        self@.next_id == start.next_id,
                        self@.processes.dom() == start.processes.dom(),
                        forall|id: ProcessId| #[trigger]
                            self@.processes.contains_key(id) ==> self@.processes[id] == (
                            if subs@.take(i as int).contains(id) {
                                ProcessModel {
                                    mailbox: start.processes[id].mailbox.insert(
                                        ty,
                                        start.processes[id].mailbox[ty].push(value),
                                    ),
                                    ..start.processes[id]
                                }
                            } else {
                                start.processes[id]
                            }),
                    decreases subs@.len() - i,
                {
                    let id = subs[i];
                    let ghost before = self@;
                    assert(!subs@.take(i as int).contains(id)) by {
                        if subs@.take(i as int).contains(id) {
                            let j = choose|j: int| 0 <= j < i && #[trigger] subs@.take(i as int)[j] == id;
                            assert(subs@[j] == subs@[i as int]);
                        }
                    }
                    assert forall|x: ProcessId| #[trigger]
                        subs@.take(i + 1).contains(x) == (subs@.take(i as int).contains(x) || x
                            == id) by {
                        if subs@.take(i + 1).contains(x) {
                            let j = choose|j: int| 0 <= j < i + 1 && #[trigger] subs@.take(i + 1)[j] == x;
                            if j < i {
                                assert(subs@.take(i as int)[j] == x);
                            }
                        }
                        if subs@.take(i as int).contains(x) {
                            let j = choose|j: int| 0 <= j < i && #[trigger] subs@.take(i as int)[j] == x;
                            assert(subs@.take(i + 1)[j] == x);
                        }
                        if x == id {
                            assert(subs@.take(i + 1)[i as int] == x);
                        }
                    }
                    match self.processes.remove(&id) {
                        Some(mut p) => {
                            let v = value.clone();
                            p.enqueue(ty, v);
                            self.processes.insert(id, p);
                        },
                        None => {},
                    }
                    assert(self@.processes.dom() =~= start.processes.dom());
                    i = i + 1;
                }
                assert(subs@.take(i as int) =~= subs@);
            },
            None => {
                assert forall|id: ProcessId| !start.subscriptions[ty].contains(id) by {}
            },
        }
        assert(self@.processes =~= start.publish(ty, value).processes);
    }

    pub fn register(&mut self, name: String, id: ProcessId)
        requires
            old(self)@.wf(),
        ensures
            final(self)@.wf(),
            final(self)@ == old(self)@.register(name@, id),
    {
        self.names.insert(name, id);
        assert(self@.processes =~= old(self)@.processes);
        assert(self@.subscriptions =~= old(self)@.subscriptions);
    }

    pub fn unregister(&mut self, name: &String)
        requires
            old(self)@.wf(),
        ensures
            final(self)@.wf(),
            final(self)@ == old(self)@.unregister(name@),
    {
        self.names.remove(name);
        assert(self@.processes =~= old(self)@.processes);
        assert(self@.subscriptions =~= old(self)@.subscriptions);
    }

    pub fn whereis(&self, name: &String) -> (r: Option<ProcessId>)
        ensures
            r == self@.whereis(name@),
    {
        self.names.get(name)
    }
}

impl Vm {
    /// The flags of `id`, if it exists.
    pub fn get_flags(&self, id: ProcessId) -> (r: Option<DProcessFlags>)
        ensures
            r == self@.flags_of(id),
    {
        match self.processes.get(&id) {
            Some(p) => Some(p.flags()),
            None => None,
        }
    }

    /// Replaces the flags of `id`, if it exists.
    pub fn set_flags(&mut self, id: ProcessId, flags: DProcessFlags)
        requires
            old(self)@.wf(),
        ensures
            final(self)@.wf(),
            final(self)@ == old(self)@.set_flags(id, flags),
    {
        match self.processes.remove(&id) {
            Some(mut p) => {
                p.set_flags(flags);
                self.processes.insert(id, p);
                assert(self@.processes =~= old(self)@.set_flags(id, flags).processes);
            },
            None => {
                assert(self@.processes =~= old(self)@.processes);
            },
        }
    }

    /// Records where the scheduler placed `id`, when it exists.
    pub fn set_attachment(&mut self, id: ProcessId, attachment: ProcessorAttachment)
        requires
            old(self)@.wf(),
        ensures
            final(self)@.wf(),
            final(self)@ == (if old(self)@.processes.contains_key(id) {
                old(self)@.with_process(
                    id,
                    ProcessModel { attachment, ..old(self)@.processes[id] },
                )
            } else {
                old(self)@
            }),
    {
        match self.processes.remove(&id) {
            Some(mut p) => {
                p.set_attachment(attachment);
                self.processes.insert(id, p);
                assert(self@.processes =~= old(self)@.with_process(
                    id,
                    ProcessModel { attachment, ..old(self)@.processes[id] },
                ).processes);
            },
            None => {
                assert(self@.processes =~= old(self)@.processes);
            },
        }
    }

    fn add_link_one_way(&mut self, from: ProcessId, to: ProcessId)
        requires
            old(self)@.wf(),
            old(self)@.processes.contains_key(from),
        ensures
            final(self)@.wf(),
            final(self)@ == old(self)@.with_process(
                from,
                ProcessModel {
                    links: old(self)@.processes[from].links.insert(to),
                    ..old(self)@.processes[from]
                },
            ),
    {
        let ghost goal = old(self)@.with_process(
            from,
            ProcessModel {
                links: old(self)@.processes[from].links.insert(to),
                ..old(self)@.processes[from]
            },
        );
        if let Some(mut p) = self.processes.remove(&from) {
            p.add_link(to);
            self.processes.insert(from, p);
        }
        assert(self@.processes =~= goal.processes);
    }

    fn remove_link_one_way(&mut self, from: ProcessId, to: ProcessId)
        requires
            old(self)@.wf(),
            old(self)@.processes.contains_key(from),
        ensures
            final(self)@.wf(),
            final(self)@ == old(self)@.with_process(
                from,
                ProcessModel {
                    links: old(self)@.processes[from].links.remove(to),
                    ..old(self)@.processes[from]
                },
            ),
    {
        let ghost goal = old(self)@.with_process(
            from,
            ProcessModel {
                links: old(self)@.processes[from].links.remove(to),
                ..old(self)@.processes[from]
            },
        );
        if let Some(mut p) = self.processes.remove(&from) {
            p.remove_link(to);
            self.processes.insert(from, p);
        }
        assert(self@.processes =~= goal.processes);
    }

    fn record_link_failure(&mut self, at: ProcessId, missing: ProcessId)
        requires
            old(self)@.wf(),
            old(self)@.processes.contains_key(at),
        ensures
            final(self)@.wf(),
            final(self)@ == old(self)@.with_process(
                at,
                ProcessModel {
                    link_failures: old(self)@.processes[at].link_failures.push(missing),
                    ..old(self)@.processes[at]
                },
            ),
    {
        let ghost goal = old(self)@.with_process(
            at,
            ProcessModel {
                link_failures: old(self)@.processes[at].link_failures.push(missing),
                ..old(self)@.processes[at]
            },
        );
        if let Some(mut p) = self.processes.remove(&at) {
            p.record_link_failure(missing);
            self.processes.insert(at, p);
        }
        assert(self@.processes =~= goal.processes);
    }

    /// Links `a` and `b` both ways; when only one exists, it is told of the
    /// other's absence.
    pub fn link(&mut self, a: ProcessId, b: ProcessId)
        requires
            old(self)@.wf(),
        ensures
            final(self)@.wf(),
            final(self)@ == old(self)@.link(a, b),
    {
        let has_a = self.contains(a);
        let has_b = self.contains(b);
        if has_a && has_b {
            self.add_link_one_way(a, b);
            self.add_link_one_way(b, a);
        } else if has_a {
            self.record_link_failure(a, b);
        } else if has_b {
            self.record_link_failure(b, a);
        }
    }

    /// Removes the link between `a` and `b` when both exist.
    pub fn unlink(&mut self, a: ProcessId, b: ProcessId)
        requires
            old(self)@.wf(),
        ensures
            final(self)@.wf(),
            final(self)@ == old(self)@.unlink(a, b),
    {
        if self.contains(a) && self.contains(b) {
            self.remove_link_one_way(a, b);
            self.remove_link_one_way(b, a);
        }
    }

    /// Makes `watcher` a monitor of `target`, when `target` exists.
    pub fn monitor(&mut self, watcher: ProcessId, target: ProcessId)
        requires
            old(self)@.wf(),
        ensures
            final(self)@.wf(),
            final(self)@ == old(self)@.monitor(watcher, target),
    {
        match self.processes.remove(&target) {
            Some(mut p) => {
                p.add_monitor(watcher);
                self.processes.insert(target, p);
                assert(self@.processes =~= old(self)@.monitor(watcher, target).processes);
            },
            None => {
                assert(self@.processes =~= old(self)@.processes);
            },
        }
    }

    /// Stops `watcher` monitoring `target`, when `target` exists.
    pub fn demonitor(&mut self, watcher: ProcessId, target: ProcessId)
        requires
            old(self)@.wf(),
        ensures
            final(self)@.wf(),
            final(self)@ == old(self)@.demonitor(watcher, target),
    {
        match self.processes.remove(&target) {
            Some(mut p) => {
                p.remove_monitor(watcher);
                self.processes.insert(target, p);
                assert(self@.processes =~= old(self)@.demonitor(watcher, target).processes);
            },
            None => {
                assert(self@.processes =~= old(self)@.processes);
            },
        }
    }

    /// Halts `target` when it exists and has not finished; a finished
    /// process keeps its status.
    pub fn halt(&mut self, target: ProcessId, ty: TypeId, reason: SharedValue)
        requires
            old(self)@.wf(),
        ensures
            final(self)@.wf(),
            final(self)@ == old(self)@.halt(target, ty, reason),
    {
        match self.processes.remove(&target) {
            Some(mut p) => {
                if !p.status().is_terminal() {
                    p.set_status(DProcessStatus::Halted { ty, reason });
                }
                self.processes.insert(target, p);
                assert(self@.processes =~= old(self)@.halt(target, ty, reason).processes);
            },
            None => {
                assert(self@.processes =~= old(self)@.processes);
            },
        }
    }
}

impl Vm {
    pub(crate) fn set_status(&mut self, id: ProcessId, status: DProcessStatus)
        requires
            old(self)@.wf(),
            old(self)@.processes.contains_key(id),
        ensures
            final(self)@.wf(),
            final(self)@ == old(self)@.with_process(
                id,
                ProcessModel { status, ..old(self)@.processes[id] },
            ),
    {
        let ghost goal = old(self)@.with_process(
            id,
            ProcessModel { status, ..old(self)@.processes[id] },
        );
        if let Some(mut p) = self.processes.remove(&id) {
            p.set_status(status);
            self.processes.insert(id, p);
        }
        assert(self@.processes =~= goal.processes);
    }

    pub(crate) fn pop_message(&mut self, id: ProcessId, ty: TypeId) -> (r: Option<SharedValue>)
        requires
            old(self)@.wf(),
            old(self)@.processes.contains_key(id),
        ensures
            final(self)@.wf(),
            old(self)@.processes[id].mailbox[ty].len() == 0 ==> r is None && final(self)@ == old(
                self,
            )@,
            old(self)@.processes[id].mailbox[ty].len() > 0 ==> r == Some(
                old(self)@.processes[id].mailbox[ty][0],
            ) && final(self)@ == old(self)@.with_process(
                id,
                ProcessModel {
                    mailbox: old(self)@.processes[id].mailbox.insert(
                        ty,
                        old(self)@.processes[id].mailbox[ty].drop_first(),
                    ),
                    ..old(self)@.processes[id]
                },
            ),
    {
        let mut r = None;
        if let Some(mut p) = self.processes.remove(&id) {
            r = p.pop_message(ty);
            self.processes.insert(id, p);
        }
        proof {
            let p0 = old(self)@.processes[id];
            if p0.mailbox[ty].len() == 0 {
                assert(self@.processes =~= old(self)@.processes);
            } else {
                assert(self@.processes =~= old(self)@.with_process(
                    id,
                    ProcessModel {
                        mailbox: p0.mailbox.insert(ty, p0.mailbox[ty].drop_first()),
                        ..p0
                    },
                ).processes);
            }
        }
        r
    }

    pub(crate) fn drain_messages(&mut self, id: ProcessId, ty: TypeId) -> (r: Vec<SharedValue>)
        requires
            old(self)@.wf(),
            old(self)@.processes.contains_key(id),
        ensures
            final(self)@.wf(),
            r@ == old(self)@.processes[id].mailbox[ty],
            final(self)@ == old(self)@.with_process(
                id,
                ProcessModel {
                    mailbox: old(self)@.processes[id].mailbox.insert(ty, Seq::empty()),
                    ..old(self)@.processes[id]
                },
            ),
    {
        let ghost goal = old(self)@.with_process(
            id,
            ProcessModel {
                mailbox: old(self)@.processes[id].mailbox.insert(ty, Seq::empty()),
                ..old(self)@.processes[id]
            },
        );
        let mut r = Vec::new();
        if let Some(mut p) = self.processes.remove(&id) {
            r = p.drain_messages(ty);
            self.processes.insert(id, p);
        }
        assert(self@.processes =~= goal.processes);
        r
    }

    pub(crate) fn kv_get(&self, id: ProcessId, key: TypeId) -> (r: Option<SharedValue>)
        requires
            self@.processes.contains_key(id),
        ensures
            r == (if self@.processes[id].kv.contains_key(key) {
                Some(self@.processes[id].kv[key])
            } else {
                None
            }),
    {
        match self.processes.get(&id) {
            Some(p) => p.kv_get(key),
            None => None,
        }
    }

    pub(crate) fn kv_insert(&mut self, id: ProcessId, key: TypeId, value: SharedValue) -> (r:
        Option<SharedValue>)
        requires
            old(self)@.wf(),
            old(self)@.processes.contains_key(id),
        ensures
            final(self)@.wf(),
            r == (if old(self)@.processes[id].kv.contains_key(key) {
                Some(old(self)@.processes[id].kv[key])
            } else {
                None
            }),
            final(self)@ == old(self)@.with_process(
                id,
                ProcessModel {
                    kv: old(self)@.processes[id].kv.insert(key, value),
                    ..old(self)@.processes[id]
                },
            ),
    {
        let ghost goal = old(self)@.with_process(
            id,
            ProcessModel {
                kv: old(self)@.processes[id].kv.insert(key, value),
                ..old(self)@.processes[id]
            },
        );
        let mut r = None;
        if let Some(mut p) = self.processes.remove(&id) {
            r = p.kv_insert(key, value);
            self.processes.insert(id, p);
        }
        assert(self@.processes =~= goal.processes);
        r
    }

    pub(crate) fn add_timer(&mut self, id: ProcessId, name: String, timer: Timer)
        requires
            old(self)@.wf(),
            old(self)@.processes.contains_key(id),
        ensures
            final(self)@.wf(),
            final(self)@ == old(self)@.with_process(
                id,
                ProcessModel {
                    timers: old(self)@.processes[id].timers.insert(name@, timer),
                    ..old(self)@.processes[id]
                },
            ),
    {
        let ghost goal = old(self)@.with_process(
            id,
            ProcessModel {
                timers: old(self)@.processes[id].timers.insert(name@, timer),
                ..old(self)@.processes[id]
            },
        );
        if let Some(mut p) = self.processes.remove(&id) {
            p.add_timer(name, timer);
            self.processes.insert(id, p);
        }
        assert(self@.processes =~= goal.processes);
    }

    pub(crate) fn remove_timer(&mut self, id: ProcessId, name: &String)
        requires
            old(self)@.wf(),
            old(self)@.processes.contains_key(id),
        ensures
            final(self)@.wf(),
            final(self)@ == old(self)@.with_process(
                id,
                ProcessModel {
                    timers: old(self)@.processes[id].timers.remove(name@),
                    ..old(self)@.processes[id]
                },
            ),
    {
        let ghost goal = old(self)@.with_process(
            id,
            ProcessModel {
                timers: old(self)@.processes[id].timers.remove(name@),
                ..old(self)@.processes[id]
            },
        );
        if let Some(mut p) = self.processes.remove(&id) {
            p.remove_timer(name);
            self.processes.insert(id, p);
        }
        assert(self@.processes =~= goal.processes);
    }
}

/// Whether `id` occurs in `ids`.
fn contains_id(ids: &Vec<ProcessId>, id: ProcessId) -> (r: bool)
    ensures
        r == ids@.contains(id),
{
    let mut i: usize = 0;
    while i < ids.len()
        invariant
            i <= ids@.len(),
            forall|j: int| 0 <= j < i ==> ids@[j] != id,
        decreases ids@.len() - i,
    {
        if ids[i] == id {
            return true;
        }
        i = i + 1;
    }
    false
}

} // verus!
