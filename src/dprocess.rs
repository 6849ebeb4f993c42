use std::collections::{HashMap, HashSet};
use vstd::prelude::*;

use crate::flags::DProcessFlags;
use crate::mailbox::Mailbox;
use crate::processor_attachment::ProcessorAttachment;
use crate::status::DProcessStatus;
use crate::table::NameTable;
use crate::timer::Timer;
use crate::value::{ProcessId, SharedValue, TypeId};

verus! {

broadcast use vstd::std_specs::hash::group_hash_axioms;

/// One process of the virtual machine and the resources it owns.
///
/// Links and monitors are bookkeeping only: a process that finishes does
/// not signal its linked or watching processes. Its final status stays
/// readable through `status`, and `is_monitored_by` tells who watches it,
/// so whoever schedules the processes decides how to notify them.
pub struct DProcess {
    id: ProcessId,
    manifest: SharedValue,
    status: DProcessStatus,
    mailbox: Mailbox,
    kv: HashMap<TypeId, SharedValue>,
    timers: NameTable<Timer>,
    flags: DProcessFlags,
    links: HashSet<ProcessId>,
    monitors: HashSet<ProcessId>,
    link_failures: Vec<ProcessId>,
    attachment: ProcessorAttachment,
}

/// The abstract state of a process.
pub struct ProcessModel {
    pub id: ProcessId,
    pub manifest: SharedValue,
    pub status: DProcessStatus,
    /// Queued messages by type, oldest first.
    pub mailbox: Map<TypeId, Seq<SharedValue>>,
    pub kv: Map<TypeId, SharedValue>,
    pub timers: Map<Seq<char>, Timer>,
    pub flags: DProcessFlags,
    /// Processes linked with this one.
    pub links: Set<ProcessId>,
    /// Processes watching this one.
    pub monitors: Set<ProcessId>,
    /// Ids that a link was asked with but that named no process.
    pub link_failures: Seq<ProcessId>,
    pub attachment: ProcessorAttachment,
}

impl View for DProcess {
    type V = ProcessModel;

    closed spec fn view(&self) -> ProcessModel {
        ProcessModel {
            id: self.id,
            manifest: self.manifest,
            status: self.status,
            mailbox: self.mailbox@,
            kv: self.kv@,
            timers: self.timers@,
            flags: self.flags,
            links: self.links@,
            monitors: self.monitors@,
            link_failures: self.link_failures@,
            attachment: self.attachment,
        }
    }
}

/// A fresh process: running, with empty resources.
pub open spec fn fresh_process(id: ProcessId, manifest: SharedValue) -> ProcessModel {
    ProcessModel {
        id,
        manifest,
        status: DProcessStatus::Running,
        mailbox: Map::new(|ty: TypeId| true, |ty: TypeId| Seq::empty()),
        kv: Map::empty(),
        timers: Map::empty(),
        flags: DProcessFlags::spec_default(),
        links: Set::empty(),
        monitors: Set::empty(),
        link_failures: Seq::empty(),
        attachment: ProcessorAttachment::Detached,
    }
}

/// A snapshot of a process for introspection.
#[derive(Debug)]
pub struct DProcessInfo {
    pub id: ProcessId,
    pub status: DProcessStatus,
    pub flags: DProcessFlags,
    pub attachment: ProcessorAttachment,
}

impl DProcess {
    pub fn new(id: ProcessId, manifest: SharedValue) -> (r: Self)
        ensures
            r@ == fresh_process(id, manifest),
    {
        let r = DProcess {
            id,
            manifest,
            status: DProcessStatus::Running,
            mailbox: Mailbox::new(),
            kv: HashMap::new(),
            timers: NameTable::new(),
            flags: DProcessFlags::default(),
            links: HashSet::new(),
            monitors: HashSet::new(),
            link_failures: Vec::new(),
            attachment: ProcessorAttachment::Detached,
        };
        assert(r@.mailbox =~= fresh_process(id, manifest).mailbox);
        assert(r@.link_failures =~= Seq::<ProcessId>::empty());
        r
    }

    pub fn id(&self) -> (r: ProcessId)
        ensures
            r == self@.id,
    {
        self.id
    }

    /// What the process was spawned from.
    pub fn manifest(&self) -> (r: SharedValue)
        ensures
            r == self@.manifest,
    {
        self.manifest.clone()
    }

    pub fn status(&self) -> (r: DProcessStatus)
        ensures
            r == self@.status,
    {
        self.status.duplicate()
    }

    pub fn info(&self) -> (r: DProcessInfo)
        ensures
            r == (DProcessInfo {
                id: self@.id,
                status: self@.status,
                flags: self@.flags,
                attachment: self@.attachment,
            }),
    {
        DProcessInfo {
            id: self.id,
            status: self.status.duplicate(),
            flags: self.flags,
            attachment: self.attachment,
        }
    }

    pub fn flags(&self) -> (r: DProcessFlags)
        ensures
            r == self@.flags,
    {
        self.flags
    }

    pub fn attachment(&self) -> (r: ProcessorAttachment)
        ensures
            r == self@.attachment,
    {
        self.attachment
    }

    pub fn set_attachment(&mut self, attachment: ProcessorAttachment)
        ensures
            final(self)@ == (ProcessModel { attachment, ..old(self)@ }),
    {
        self.attachment = attachment;
    }

    pub(crate) fn set_status(&mut self, status: DProcessStatus)
        ensures
            final(self)@ == (ProcessModel { status, ..old(self)@ }),
    {
        self.status = status;
    }

    pub(crate) fn set_flags(&mut self, flags: DProcessFlags)
        ensures
            final(self)@ == (ProcessModel { flags, ..old(self)@ }),
    {
        self.flags = flags;
    }

    pub(crate) fn enqueue(&mut self, ty: TypeId, message: SharedValue)
        ensures
            final(self)@ == (ProcessModel {
                mailbox: old(self)@.mailbox.insert(ty, old(self)@.mailbox[ty].push(message)),
                ..old(self)@
            }),
    {
        self.mailbox.enqueue(ty, message);
    }

    pub(crate) fn pop_message(&mut self, ty: TypeId) -> (r: Option<SharedValue>)
        ensures
            old(self)@.mailbox[ty].len() == 0 ==> r is None && final(self)@ == old(self)@,
            old(self)@.mailbox[ty].len() > 0 ==> r == Some(old(self)@.mailbox[ty][0])
                && final(self)@ == (ProcessModel {
                mailbox: old(self)@.mailbox.insert(ty, old(self)@.mailbox[ty].drop_first()),
                ..old(self)@
            }),
    {
        self.mailbox.pop(ty)
    }

    pub(crate) fn drain_messages(&mut self, ty: TypeId) -> (r: Vec<SharedValue>)
        ensures
            r@ == old(self)@.mailbox[ty],
            final(self)@ == (ProcessModel {
                mailbox: old(self)@.mailbox.insert(ty, Seq::empty()),
                ..old(self)@
            }),
    {
        self.mailbox.drain(ty)
    }

    pub(crate) fn kv_get(&self, key: TypeId) -> (r: Option<SharedValue>)
        ensures
            r == (if self@.kv.contains_key(key) {
                Some(self@.kv[key])
            } else {
                None
            }),
    {
        match self.kv.get(&key) {
            Some(v) => Some(v.clone()),
            None => None,
        }
    }

    pub(crate) fn kv_insert(&mut self, key: TypeId, value: SharedValue) -> (r: Option<
        SharedValue,
    >)
        ensures
            r == (if old(self)@.kv.contains_key(key) {
                Some(old(self)@.kv[key])
            } else {
                None
            }),
            final(self)@ == (ProcessModel { kv: old(self)@.kv.insert(key, value), ..old(self)@ }),
    {
        self.kv.insert(key, value)
    }

    pub(crate) fn add_timer(&mut self, name: String, timer: Timer)
        ensures
            final(self)@ == (ProcessModel {
                timers: old(self)@.timers.insert(name@, timer),
                ..old(self)@
            }),
    {
        self.timers.insert(name, timer);
    }

    pub(crate) fn remove_timer(&mut self, name: &String)
        ensures
            final(self)@ == (ProcessModel { timers: old(self)@.timers.remove(name@), ..old(self)@ }),
    {
        self.timers.remove(name);
    }

    /// The timer registered under `name`, if any.
    pub fn timer(&self, name: &String) -> (r: Option<Timer>)
        ensures
            r == (if self@.timers.contains_key(name@) {
                Some(self@.timers[name@])
            } else {
                None
            }),
    {
        self.timers.get(name)
    }

    pub(crate) fn add_link(&mut self, other: ProcessId)
        ensures
            final(self)@ == (ProcessModel { links: old(self)@.links.insert(other), ..old(self)@ }),
    {
        self.links.insert(other);
    }

    pub(crate) fn remove_link(&mut self, other: ProcessId)
        ensures
            final(self)@ == (ProcessModel { links: old(self)@.links.remove(other), ..old(self)@ }),
    {
        self.links.remove(&other);
    }

    pub fn is_linked(&self, other: ProcessId) -> (r: bool)
        ensures
            r == self@.links.contains(other),
    {
        self.links.contains(&other)
    }

    pub(crate) fn add_monitor(&mut self, watcher: ProcessId)
        ensures
            final(self)@ == (ProcessModel {
                monitors: old(self)@.monitors.insert(watcher),
                ..old(self)@
            }),
    {
        self.monitors.insert(watcher);
    }

    pub(crate) fn remove_monitor(&mut self, watcher: ProcessId)
        ensures
            final(self)@ == (ProcessModel {
                monitors: old(self)@.monitors.remove(watcher),
                ..old(self)@
            }),
    {
        self.monitors.remove(&watcher);
    }

    pub fn is_monitored_by(&self, watcher: ProcessId) -> (r: bool)
        ensures
            r == self@.monitors.contains(watcher),
    {
        self.monitors.contains(&watcher)
    }

    pub(crate) fn record_link_failure(&mut self, missing: ProcessId)
        ensures
            final(self)@ == (ProcessModel {
                link_failures: old(self)@.link_failures.push(missing),
                ..old(self)@
            }),
    {
        self.link_failures.push(missing);
    }

    /// Ids that a link of this process was asked with and that named no
    /// process, oldest first.
    pub fn link_failures(&self) -> (r: &Vec<ProcessId>)
        ensures
            r@ == self@.link_failures,
    {
        &self.link_failures
    }

    /// How many messages of `ty` are queued.
    pub fn queued(&self, ty: TypeId) -> (r: usize)
        ensures
            r == self@.mailbox[ty].len(),
    {
        self.mailbox.len(ty)
    }
}

} // verus!
