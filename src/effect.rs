use vstd::prelude::*;

use crate::dprocess::DProcessInfo;
use crate::flags::DProcessFlags;
use crate::status::{ProcessOutput, SharedError};
use crate::timer::Timer;
use crate::value::{Effect, ProcessId, SharedValue, TypeId};
use crate::vm::VmInfo;

verus! {

/// A performed effect as its bound handler resolved it: which strategy
/// applies and the data the handler computed from the effect's input.
/// `output` is the answer the handler has for the interpreter.
pub enum EffectCall {
    /// Answers at once.
    Immediate { output: SharedValue },
    /// Answers and starts a new process from `manifest`.
    Spawn { output: SharedValue, manifest: SharedValue },
    /// Left to the caller of the reduction.
    Defer { input: SharedValue, effect: Effect },
    /// Sends `message` under `ty` to `to`.
    SendMessage { output: SharedValue, to: ProcessId, ty: TypeId, message: SharedValue },
    /// Answers with the oldest message of `ty`, or waits for one.
    ReceiveMessage { ty: TypeId },
    /// Answers with every queued message of `ty`.
    FlushMailbox { ty: TypeId },
    /// Subscribes the process to `ty`.
    Subscribe { output: SharedValue, ty: TypeId },
    /// Publishes `value` under `ty` to the subscribers; answers with unit.
    Publish { ty: TypeId, value: SharedValue },
    /// Answers with the stored value of `key`.
    GetKv { key: TypeId },
    /// Stores `value` under `key`; answers with the value it replaced.
    UpdateKv { key: TypeId, value: SharedValue },
    /// Answers with the flags of `target`.
    GetFlags { target: ProcessId },
    /// Replaces the flags of `target`; answers with the flags it replaced.
    UpdateFlags { target: ProcessId, flags: DProcessFlags },
    /// Registers a timer under `name`.
    AddTimer { output: SharedValue, name: String, timer: Timer },
    /// Removes the timer under `name`.
    RemoveTimer { output: SharedValue, name: String },
    /// Makes the process a monitor of `target`.
    Monitor { output: SharedValue, target: ProcessId },
    /// Stops the process monitoring `target`.
    Demonitor { output: SharedValue, target: ProcessId },
    /// Answers with a snapshot of the process.
    ProcessInfo,
    /// Answers with a snapshot of the virtual machine.
    VmInfo,
    /// Links `first` and `second`.
    Link { output: SharedValue, first: ProcessId, second: ProcessId },
    /// Unlinks `first` and `second`.
    Unlink { output: SharedValue, first: ProcessId, second: ProcessId },
    /// Binds `name` to `id` in the name registry.
    Register { output: SharedValue, name: String, id: ProcessId },
    /// Drops `name` from the name registry.
    Unregister { output: SharedValue, name: String },
    /// Answers with the process bound to `name`.
    Whereis { name: String },
    /// Halts `target` with a type and a reason.
    Halt { output: SharedValue, target: ProcessId, ty: TypeId, reason: SharedValue },
}

/// What one step of an interpreter came to.
pub enum InterpreterOutput {
    Returned(SharedValue),
    Performed(EffectCall),
    Running,
}

/// What the interpreter is resumed with after a reduction: the answer to
/// the effect it performed, or the data its handler turns into one.
#[derive(Debug)]
pub enum Feed {
    Nothing,
    Unit,
    Value(SharedValue),
    Messages(Vec<SharedValue>),
    Kv(Option<SharedValue>),
    Flags(Option<DProcessFlags>),
    Info(DProcessInfo),
    Vm(VmInfo),
    Location(Option<ProcessId>),
}

/// The abstract counterpart of `Feed`.
pub enum FeedModel {
    Nothing,
    Unit,
    Value(SharedValue),
    Messages(Seq<SharedValue>),
    Kv(Option<SharedValue>),
    Flags(Option<DProcessFlags>),
    Info(DProcessInfo),
    Vm(VmInfo),
    Location(Option<ProcessId>),
}

impl View for Feed {
    type V = FeedModel;

    open spec fn view(&self) -> FeedModel {
        match self {
            Feed::Nothing => FeedModel::Nothing,
            Feed::Unit => FeedModel::Unit,
            Feed::Value(v) => FeedModel::Value(*v),
            Feed::Messages(m) => FeedModel::Messages(m@),
            Feed::Kv(v) => FeedModel::Kv(*v),
            Feed::Flags(f) => FeedModel::Flags(*f),
            Feed::Info(i) => FeedModel::Info(*i),
            Feed::Vm(i) => FeedModel::Vm(*i),
            Feed::Location(l) => FeedModel::Location(*l),
        }
    }
}

/// The outcome of one reduction: the report to the scheduler and what the
/// interpreter is to be resumed with.
#[derive(Debug)]
pub struct Reduction {
    pub output: ProcessOutput,
    pub feed: Feed,
}

pub struct ReductionModel {
    pub output: ProcessOutput,
    pub feed: FeedModel,
}

impl View for Reduction {
    type V = ReductionModel;

    open spec fn view(&self) -> ReductionModel {
        ReductionModel { output: self.output, feed: self.feed@ }
    }
}

/// A reduction that keeps the process running and resumes the interpreter
/// with `feed`.
pub open spec fn running(feed: FeedModel) -> ReductionModel {
    ReductionModel { output: ProcessOutput::Running, feed }
}

/// What an interpreter step reports: its outcome, or the error it failed with.
pub type InterpreterStep = Result<InterpreterOutput, SharedError>;

} // verus!
