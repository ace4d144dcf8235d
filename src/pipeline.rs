//! Life cycle of one invocation: the stages from admission to termination,
//! the resources each stage holds, and what must be undone on every exit.
use vstd::prelude::*;
use vstd::string::StringExecFns;

verus! {

/// Pipeline-level retries the orchestrator allows for one request.
pub const MAX_RETRIES: u32 = 3;

/// Deadline for the guest to connect to the back-channel.
pub const ACCEPT_DEADLINE_MS: u64 = 500;

/// Deadline for reading the handshake once connected.
pub const HANDSHAKE_DEADLINE_MS: u64 = 500;

/// Deadline for writing the payload frame.
pub const PAYLOAD_DEADLINE_MS: u64 = 1000;

/// Deadline for each of the two reads of the response frame.
pub const RESPONSE_DEADLINE_MS: u64 = 10000;

/// Errors of a pipeline run.
#[derive(Debug, Clone, Copy, PartialEq, Eq, Structural)]
pub enum InstanceError {
    ApplicationNotInitialized,
    InstanceCreation,
    InstanceStart,
    VSock,
    VSockTimeout,
    VSockCreation,
    Database,
    Timeout,
    HostUnreachable,
    Unknown,
}

/// Stages of an invocation, in order; `Terminated` and `Failed` are final.
#[derive(Debug, Clone, Copy, PartialEq, Eq, Structural)]
pub enum Stage {
    Created,
    Recorded,
    Bound,
    Running,
    HandshakeOk,
    PayloadSent,
    ResponseReceived,
    Terminated,
    Failed,
}

/// Something a pipeline holds that must be given back.
#[derive(Debug, Clone, Copy, PartialEq, Eq, Structural)]
pub enum Resource {
    /// A guest address taken from the pool.
    Ip,
    /// A TAP interface attached to the bridge.
    Tap,
    /// A created microVM.
    Vm,
    /// A persisted record with status `started`.
    Record,
    /// A bound back-channel socket file.
    Socket,
    /// An accepted back-channel stream.
    Stream,
}

/// One step of giving resources back, in the order they are to be taken.
#[derive(Debug, Clone, Copy, PartialEq, Eq, Structural)]
pub enum CleanupStep {
    CloseStream,
    StopVm,
    DeleteVm,
    KillVm,
    RemoveTap,
    ReleaseIp,
    RemoveSocket,
    MarkTerminated,
    MarkFailed,
}

/// Status of a persisted invocation record.
#[derive(Debug, Clone, Copy, PartialEq, Eq, Structural)]
pub enum RecordStatus {
    Started,
    Terminated,
    Failed,
}

/// The resources a pipeline holds.
#[derive(Debug, Clone, Copy, PartialEq, Eq, Structural)]
pub struct Held {
    pub ip: bool,
    pub tap: bool,
    pub vm: bool,
    pub record: bool,
    pub socket: bool,
    pub stream: bool,
}

/// Position of a stage in the order of the life cycle.
pub open spec fn stage_rank(s: Stage) -> nat {
    match s {
        Stage::Created => 0,
        Stage::Recorded => 1,
        Stage::Bound => 2,
        Stage::Running => 3,
        Stage::HandshakeOk => 4,
        Stage::PayloadSent => 5,
        Stage::ResponseReceived => 6,
        Stage::Terminated => 7,
        Stage::Failed => 8,
    }
}

/// Whether `s` is final.
pub open spec fn is_final(s: Stage) -> bool {
    s == Stage::Terminated || s == Stage::Failed
}

/// The stage after `s` when its transition succeeds.
pub open spec fn successor(s: Stage) -> Stage {
    match s {
        Stage::Created => Stage::Recorded,
        Stage::Recorded => Stage::Bound,
        Stage::Bound => Stage::Running,
        Stage::Running => Stage::HandshakeOk,
        Stage::HandshakeOk => Stage::PayloadSent,
        Stage::PayloadSent => Stage::ResponseReceived,
        Stage::ResponseReceived => Stage::Terminated,
        Stage::Terminated => Stage::Terminated,
        Stage::Failed => Stage::Failed,
    }
}

/// Nothing held.
pub open spec fn none_held() -> Held {
    Held { ip: false, tap: false, vm: false, record: false, socket: false, stream: false }
}

/// `h` with `r` held too.
pub open spec fn with(h: Held, r: Resource) -> Held {
    match r {
        Resource::Ip => Held { ip: true, ..h },
        Resource::Tap => Held { tap: true, ..h },
        Resource::Vm => Held { vm: true, ..h },
        Resource::Record => Held { record: true, ..h },
        Resource::Socket => Held { socket: true, ..h },
        Resource::Stream => Held { stream: true, ..h },
    }
}

/// `s` followed by `x` when `c` holds.
pub open spec fn push_if(s: Seq<CleanupStep>, c: bool, x: CleanupStep) -> Seq<CleanupStep> {
    if c {
        s.push(x)
    } else {
        s
    }
}

/// What to undo after a failure while holding `h`: the stream, the microVM,
/// the TAP, the address, the socket file, and only then the record's status.
pub open spec fn failure_plan(h: Held) -> Seq<CleanupStep> {
    let s0 = push_if(Seq::empty(), h.stream, CleanupStep::CloseStream);
    let s1 = push_if(s0, h.vm, CleanupStep::KillVm);
    let s2 = push_if(s1, h.tap, CleanupStep::RemoveTap);
    let s3 = push_if(s2, h.ip, CleanupStep::ReleaseIp);
    let s4 = push_if(s3, h.socket, CleanupStep::RemoveSocket);
    push_if(s4, h.record, CleanupStep::MarkFailed)
}

/// What to undo after the response is in while holding `h`: shut the
/// stream, stop and delete the microVM, remove the TAP, release the address,
/// remove the socket file, mark the record terminated.
pub open spec fn finish_plan(h: Held) -> Seq<CleanupStep> {
    let s0 = push_if(Seq::empty(), h.stream, CleanupStep::CloseStream);
    let s1 = push_if(s0, h.vm, CleanupStep::StopVm);
    let s2 = push_if(s1, h.vm, CleanupStep::DeleteVm);
    let s3 = push_if(s2, h.tap, CleanupStep::RemoveTap);
    let s4 = push_if(s3, h.ip, CleanupStep::ReleaseIp);
    let s5 = push_if(s4, h.socket, CleanupStep::RemoveSocket);
    push_if(s5, h.record, CleanupStep::MarkTerminated)
}

fn push_step_if(v: &mut Vec<CleanupStep>, c: bool, x: CleanupStep)
    ensures
        final(v)@ == push_if(old(v)@, c, x),
{
    if c {
        v.push(x);
    }
}

/// One invocation's progress and what it holds.
pub struct Pipeline {
    stage: Stage,
    held: Held,
    failed_from: Option<Stage>,
}

impl Pipeline {
    /// The present stage.
    pub closed spec fn spec_stage(&self) -> Stage {
        self.stage
    }

    /// The resources held now.
    pub closed spec fn spec_held(&self) -> Held {
        self.held
    }

    /// The stage whose transition failed, once failed.
    pub closed spec fn spec_failed_from(&self) -> Option<Stage> {
        self.failed_from
    }

    /// A final pipeline holds nothing; a failed one knows where it failed.
    pub closed spec fn wf(&self) -> bool {
        &&& is_final(self.stage) ==> self.held == none_held()
        &&& (self.stage == Stage::Failed) == (self.failed_from is Some)
        &&& self.failed_from matches Some(f) ==> !is_final(f)
    }

    /// A fresh pipeline: `Created`, holding nothing.
    pub fn new() -> (r: Self)
        ensures
            r.wf(),
            r.spec_stage() == Stage::Created,
            r.spec_held() == none_held(),
    {
        Pipeline {
            stage: Stage::Created,
            held: Held { ip: false, tap: false, vm: false, record: false, socket: false, stream: false },
            failed_from: None,
        }
    }

    /// The present stage.
    pub fn stage(&self) -> (r: Stage)
        ensures
            r == self.spec_stage(),
    {
        self.stage
    }

    /// The resources held now.
    pub fn held(&self) -> (r: Held)
        ensures
            r == self.spec_held(),
    {
        self.held
    }

    /// Note that `r` has been taken.
    pub fn acquired(&mut self, r: Resource)
        requires
            old(self).wf(),
            !is_final(old(self).spec_stage()),
        ensures
            final(self).wf(),
            final(self).spec_stage() == old(self).spec_stage(),
            final(self).spec_held() == with(old(self).spec_held(), r),
            final(self).spec_failed_from() == old(self).spec_failed_from(),
    {
        match r {
            Resource::Ip => self.held.ip = true,
            Resource::Tap => self.held.tap = true,
            Resource::Vm => self.held.vm = true,
            Resource::Record => self.held.record = true,
            Resource::Socket => self.held.socket = true,
            Resource::Stream => self.held.stream = true,
        }
    }

    /// The present stage's transition succeeded.
    pub fn advance(&mut self)
        requires
            old(self).wf(),
            !is_final(old(self).spec_stage()),
            old(self).spec_stage() != Stage::ResponseReceived,
        ensures
            final(self).wf(),
            final(self).spec_stage() == successor(old(self).spec_stage()),
            stage_rank(final(self).spec_stage()) == stage_rank(old(self).spec_stage()) + 1,
            final(self).spec_held() == old(self).spec_held(),
            final(self).spec_failed_from() == old(self).spec_failed_from(),
    {
        self.stage = match self.stage {
            Stage::Created => Stage::Recorded,
            Stage::Recorded => Stage::Bound,
            Stage::Bound => Stage::Running,
            Stage::Running => Stage::HandshakeOk,
            Stage::HandshakeOk => Stage::PayloadSent,
            Stage::PayloadSent => Stage::ResponseReceived,
            s => s,
        };
    }

    /// The present stage's transition failed: the pipeline is `Failed`, holds
    /// nothing, and the steps returned give back what it held.
    pub fn fail(&mut self) -> (r: Vec<CleanupStep>)
        requires
            old(self).wf(),
            !is_final(old(self).spec_stage()),
        ensures
            final(self).wf(),
            final(self).spec_stage() == Stage::Failed,
            final(self).spec_failed_from() == Some(old(self).spec_stage()),
            final(self).spec_held() == none_held(),
            r@ == failure_plan(old(self).spec_held()),
    {
        let h = self.held;
        let mut v: Vec<CleanupStep> = Vec::new();
        push_step_if(&mut v, h.stream, CleanupStep::CloseStream);
        push_step_if(&mut v, h.vm, CleanupStep::KillVm);
        push_step_if(&mut v, h.tap, CleanupStep::RemoveTap);
        push_step_if(&mut v, h.ip, CleanupStep::ReleaseIp);
        push_step_if(&mut v, h.socket, CleanupStep::RemoveSocket);
        push_step_if(&mut v, h.record, CleanupStep::MarkFailed);
        self.failed_from = Some(self.stage);
        self.stage = Stage::Failed;
        self.held = Held { ip: false, tap: false, vm: false, record: false, socket: false, stream: false };
        v
    }

    /// The response is in: the pipeline is `Terminated`, holds nothing, and
    /// the steps returned give back what it held.
    pub fn finish(&mut self) -> (r: Vec<CleanupStep>)
        requires
            old(self).wf(),
            old(self).spec_stage() == Stage::ResponseReceived,
        ensures
            final(self).wf(),
            final(self).spec_stage() == Stage::Terminated,
            final(self).spec_failed_from() is None,
            final(self).spec_held() == none_held(),
            r@ == finish_plan(old(self).spec_held()),
    {
        let h = self.held;
        let mut v: Vec<CleanupStep> = Vec::new();
        push_step_if(&mut v, h.stream, CleanupStep::CloseStream);
        push_step_if(&mut v, h.vm, CleanupStep::StopVm);
        push_step_if(&mut v, h.vm, CleanupStep::DeleteVm);
        push_step_if(&mut v, h.tap, CleanupStep::RemoveTap);
        push_step_if(&mut v, h.ip, CleanupStep::ReleaseIp);
        push_step_if(&mut v, h.socket, CleanupStep::RemoveSocket);
        push_step_if(&mut v, h.record, CleanupStep::MarkTerminated);
        self.stage = Stage::Terminated;
        self.held = Held { ip: false, tap: false, vm: false, record: false, socket: false, stream: false };
        v
    }

    /// Whether the run failed before the handshake, when the guest had not
    /// yet begun executing and a new run may be made.
    pub fn failed_before_handshake(&self) -> (r: bool)
        requires
            self.wf(),
        ensures
            r == (self.spec_failed_from() matches Some(f) && stage_rank(f) < stage_rank(Stage::HandshakeOk)),
    {
        match self.failed_from {
            Some(Stage::Created) | Some(Stage::Recorded) | Some(Stage::Bound) | Some(Stage::Running) => true,
            _ => false,
        }
    }
}

/// Where the host listens for the guest's back-channel: the microVM's vsock
/// path followed by `_` and the agreed port, 1234.
pub fn backchannel_path(vsock_path: &String) -> (r: String)
    ensures
        r@ == vsock_path@ + seq!['_', '1', '2', '3', '4'],
{
    let mut p = vsock_path.clone();
    proof {
        reveal_strlit("_1234");
    }
    p.append("_1234");
    p
}

/// Whether the orchestrator runs the pipeline again after `retries` retries,
/// the last run having failed (`pre_handshake` when before the handshake).
pub fn should_retry(retries: u32, pre_handshake: bool) -> (r: bool)
    ensures
        r == (pre_handshake && retries < MAX_RETRIES),
{
    pre_handshake && retries < MAX_RETRIES
}

/// The status a record takes when the pipeline ends in `s`.
pub fn final_status(s: Stage) -> (r: Option<RecordStatus>)
    ensures
        s == Stage::Terminated ==> r == Some(RecordStatus::Terminated),
        s == Stage::Failed ==> r == Some(RecordStatus::Failed),
        !is_final(s) ==> r is None,
{
    match s {
        Stage::Terminated => Some(RecordStatus::Terminated),
        Stage::Failed => Some(RecordStatus::Failed),
        _ => None,
    }
}

} // verus!
