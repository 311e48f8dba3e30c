use vstd::prelude::*;
use crate::ids::{CorrelationId, Pid};

verus! {

/// A client operation, opaque to replication, with the client's bookkeeping.
#[derive(Debug)]
pub struct ClientRequest {
    pub op: Vec<u8>,
    pub client_id: u64,
    pub request_num: u64,
}

/// What a `ClientRequest` holds, as mathematical values.
pub struct RequestView {
    pub op: Seq<u8>,
    pub client_id: u64,
    pub request_num: u64,
}

impl View for ClientRequest {
    type V = RequestView;

    open spec fn view(&self) -> RequestView {
        RequestView { op: self.op@, client_id: self.client_id, request_num: self.request_num }
    }
}

fn copy_bytes(v: &Vec<u8>) -> (r: Vec<u8>)
    ensures
        r@ == v@,
{
    let mut r: Vec<u8> = Vec::new();
    let mut i: usize = 0;
    while i < v.len()
        invariant
            i <= v.len(),
            r@ == v@.subrange(0, i as int),
        decreases v.len() - i,
    {
        r.push(v[i]);
        i = i + 1;
        assert(r@ =~= v@.subrange(0, i as int));
    }
    assert(r@ =~= v@);
    r
}

/// Copies a list of replicas.
pub fn copy_pids(v: &Vec<Pid>) -> (r: Vec<Pid>)
    ensures
        r@ == v@,
{
    let mut r: Vec<Pid> = Vec::new();
    let mut i: usize = 0;
    while i < v.len()
        invariant
            i <= v.len(),
            r@ == v@.subrange(0, i as int),
        decreases v.len() - i,
    {
        r.push(v[i]);
        i = i + 1;
        assert(r@ =~= v@.subrange(0, i as int));
    }
    assert(r@ =~= v@);
    r
}

impl ClientRequest {
    /// A copy holding the same operation and bookkeeping.
    pub fn duplicate(&self) -> (r: ClientRequest)
        ensures
            r@ == self@,
    {
        ClientRequest { op: copy_bytes(&self.op), client_id: self.client_id, request_num: self.request_num }
    }
}

/// A request to move the group to a new membership in a new epoch.
#[derive(Debug)]
pub struct Reconfiguration {
    pub client_req_num: u64,
    pub epoch: u64,
    pub replicas: Vec<Pid>,
}

/// One entry of the replicated log.
#[derive(Debug)]
pub enum ClientOp {
    Request(ClientRequest),
    Reconfiguration(Reconfiguration),
}

impl ClientOp {
    /// A reconfiguration names at least one replica.
    pub open spec fn wf(&self) -> bool {
        match self {
            ClientOp::Request(_) => true,
            ClientOp::Reconfiguration(r) => r.replicas@.len() > 0,
        }
    }
}

/// Every entry of a log is well formed.
pub open spec fn log_wf(log: Seq<ClientOp>) -> bool {
    forall|i: int| 0 <= i < log.len() ==> #[trigger] log[i].wf()
}

/// From index `from` on, every reconfiguration names an epoch of at least
/// `epoch`, and no reconfiguration names a lower epoch than an earlier one.
pub open spec fn epochs_ascend(log: Seq<ClientOp>, from: int, epoch: u64) -> bool {
    &&& forall|i: int|
        from <= i < log.len() && (#[trigger] log[i]) is Reconfiguration ==> epoch <= log[i]->Reconfiguration_0.epoch
    &&& forall|i: int, j: int|
        from <= i < j < log.len() && (#[trigger] log[i]) is Reconfiguration && (#[trigger] log[j]) is Reconfiguration
            ==> log[i]->Reconfiguration_0.epoch <= log[j]->Reconfiguration_0.epoch
}

#[derive(Debug)]
pub struct Prepare {
    pub epoch: u64,
    pub view: u64,
    pub op: u64,
    pub commit_num: u64,
    pub msg: ClientOp,
}

#[derive(Clone, Copy, Debug, PartialEq, Eq, Structural)]
pub struct PrepareOk {
    pub epoch: u64,
    pub view: u64,
    pub op: u64,
    pub from: Pid,
}

#[derive(Clone, Copy, Debug, PartialEq, Eq, Structural)]
pub struct Commit {
    pub epoch: u64,
    pub view: u64,
    pub commit_num: u64,
}

#[derive(Clone, Copy, Debug, PartialEq, Eq, Structural)]
pub struct StartViewChange {
    pub epoch: u64,
    pub view: u64,
    pub op: u64,
}

#[derive(Debug)]
pub struct DoViewChange {
    pub epoch: u64,
    pub view: u64,
    pub op: u64,
    pub from: Pid,
    pub last_normal_view: u64,
    pub log: Vec<ClientOp>,
    pub commit_num: u64,
}

#[derive(Debug)]
pub struct StartView {
    pub epoch: u64,
    pub view: u64,
    pub op: u64,
    pub log: Vec<ClientOp>,
    pub commit_num: u64,
}

impl StartView {
    /// The announced state is internally consistent.
    pub open spec fn wf(&self) -> bool {
        &&& self.commit_num <= self.op
        &&& self.op <= self.log@.len()
        &&& log_wf(self.log@)
    }
}

#[derive(Clone, Copy, Debug, PartialEq, Eq, Structural)]
pub struct GetState {
    pub epoch: u64,
    pub view: u64,
    pub op: u64,
}

#[derive(Clone, Copy, Debug, PartialEq, Eq, Structural)]
pub struct Recovery {
    pub epoch: u64,
    pub nonce: u64,
}

#[derive(Clone, Copy, Debug, PartialEq, Eq, Structural)]
pub struct StartEpoch {
    pub epoch: u64,
    pub op: u64,
}

/// A message delivered to a replica.
#[derive(Debug)]
pub enum VrMsg {
    Prepare(Prepare),
    PrepareOk(PrepareOk),
    Commit(Commit),
    StartViewChange(StartViewChange),
    DoViewChange(DoViewChange),
    StartView(StartView),
    Tick,
    GetState(GetState),
    Recovery(Recovery),
    StartEpoch(StartEpoch),
}

impl VrMsg {
    /// Structural sanity that the transport layer guarantees: a primary never
    /// claims commits beyond what it prepared, and an announced log is consistent.
    pub open spec fn wf(&self) -> bool {
        match self {
            VrMsg::Prepare(p) => p.commit_num <= p.op && p.msg.wf(),
            VrMsg::StartView(s) => s.wf(),
            _ => true,
        }
    }
}

/// A protocol message that a backup sends to its peers.
#[derive(Clone, Copy, Debug, PartialEq, Eq, Structural)]
pub enum PeerMsg {
    PrepareOk(PrepareOk),
    StartViewChange(StartViewChange),
}

/// A message addressed from one replica to another.
#[derive(Clone, Copy, Debug, PartialEq, Eq, Structural)]
pub struct Envelope {
    pub to: Pid,
    pub from: Pid,
    pub msg: PeerMsg,
    pub cid: CorrelationId,
}

/// An effect requested by a role: a message to send, a notice for the
/// namespace manager, an operation to execute, or work for a peer module.
#[derive(Debug)]
pub enum Output {
    Send(Envelope),
    NewPrimary(Pid),
    Reconfigured { epoch: u64, replicas: Vec<Pid> },
    Execute(ClientRequest),
    SendNewState { to: Pid, op: u64, cid: CorrelationId },
    RecoveryResponse { to: Pid, nonce: u64, cid: CorrelationId },
    EpochStarted { to: Pid, cid: CorrelationId },
    BroadcastEpochStarted,
}

/// What an `Output` holds, as mathematical values.
pub enum OutputView {
    Send(Envelope),
    NewPrimary(Pid),
    Reconfigured { epoch: u64, replicas: Seq<Pid> },
    Execute(RequestView),
    SendNewState { to: Pid, op: u64, cid: CorrelationId },
    RecoveryResponse { to: Pid, nonce: u64, cid: CorrelationId },
    EpochStarted { to: Pid, cid: CorrelationId },
    BroadcastEpochStarted,
}

impl View for Output {
    type V = OutputView;

    open spec fn view(&self) -> OutputView {
        match self {
            Output::Send(e) => OutputView::Send(*e),
            Output::NewPrimary(p) => OutputView::NewPrimary(*p),
            Output::Reconfigured { epoch, replicas } => OutputView::Reconfigured {
                epoch: *epoch,
                replicas: replicas@,
            },
            Output::Execute(r) => OutputView::Execute(r@),
            Output::SendNewState { to, op, cid } => OutputView::SendNewState {
                to: *to,
                op: *op,
                cid: *cid,
            },
            Output::RecoveryResponse { to, nonce, cid } => OutputView::RecoveryResponse {
                to: *to,
                nonce: *nonce,
                cid: *cid,
            },
            Output::EpochStarted { to, cid } => OutputView::EpochStarted { to: *to, cid: *cid },
            Output::BroadcastEpochStarted => OutputView::BroadcastEpochStarted,
        }
    }
}

/// The effects of a list of outputs.
pub open spec fn outs_view(s: Seq<Output>) -> Seq<OutputView> {
    s.map_values(|o: Output| o@)
}

/// Appends one effect to the output list.
pub fn emit(output: &mut Vec<Output>, o: Output)
    ensures
        outs_view(final(output)@) == outs_view(old(output)@).push(o@),
{
    let ghost v = o@;
    output.push(o);
    assert(outs_view(output@) =~= outs_view(old(output)@).push(v));
}

} // verus!
