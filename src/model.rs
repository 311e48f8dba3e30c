//! The backup role as mathematical functions from a state and an input to the
//! next role and the effects requested, in the order requested.
use vstd::prelude::*;
use crate::backup::BackupView;
use crate::ctx::CtxView;
use crate::fresh::{fresh, Freshness};
use crate::ids::{CorrelationId, Pid};
use crate::msg::{
    epochs_ascend, ClientOp, Commit, DoViewChange, Envelope, GetState, OutputView, PeerMsg, Prepare, PrepareOk, StartView,
    StartViewChange, VrMsg,
};
use crate::state::StateView;

verus! {

pub open spec fn with_ctx(b: BackupView, ctx: CtxView) -> BackupView {
    BackupView { ctx, primary: b.primary }
}

/// Records that the primary was heard from at `now`.
pub open spec fn heard_at(b: BackupView, now: u64) -> BackupView {
    with_ctx(b, CtxView { last_received_time: now, ..b.ctx })
}

/// Recomputes the primary, announcing it only when it changed.
pub open spec fn set_primary_step(b: BackupView) -> (BackupView, Seq<OutputView>) {
    let p = b.ctx.primary();
    if p == b.primary {
        (b, Seq::empty())
    } else {
        (BackupView { ctx: b.ctx, primary: p }, seq![OutputView::NewPrimary(p)])
    }
}

/// The effect of committing the log entry at index `i` (op number `i + 1`).
pub open spec fn apply_entry(b: BackupView, i: int) -> (BackupView, Seq<OutputView>) {
    match b.ctx.log[i] {
        ClientOp::Request(r) => (b, seq![OutputView::Execute(r@)]),
        ClientOp::Reconfiguration(rc) => {
            let moved = with_ctx(b, b.ctx.enter_epoch(rc.epoch, (i + 1) as u64, rc.replicas@));
            let sp = set_primary_step(moved);
            (sp.0, seq![OutputView::Reconfigured { epoch: rc.epoch, replicas: rc.replicas@ }] + sp.1)
        },
    }
}

/// Commits the entries at indices `from .. to`, in ascending order.
pub open spec fn replay(b: BackupView, from: int, to: int) -> (BackupView, Seq<OutputView>)
    decreases to - from,
{
    if to <= from {
        (b, Seq::empty())
    } else {
        let prev = replay(b, from, to - 1);
        let next = apply_entry(prev.0, to - 1);
        (next.0, prev.1 + next.1)
    }
}

/// The log ends with a reconfiguration at op number `n`.
pub open spec fn ends_epoch(log: Seq<ClientOp>, n: int) -> bool {
    &&& n > 0
    &&& n == log.len()
    &&& log[n - 1] is Reconfiguration
}

/// After committing a reconfiguration that ends the log: leave, lead, or follow.
pub open spec fn role_decision(b: BackupView) -> (StateView, Seq<OutputView>) {
    if b.ctx.is_leaving() {
        (StateView::Leaving(b.ctx), Seq::empty())
    } else if b.ctx.primary() == b.ctx.pid {
        (
            StateView::Primary(CtxView { reconfiguration_in_progress: false, ..b.ctx }),
            seq![OutputView::BroadcastEpochStarted],
        )
    } else {
        (StateView::Backup(b), seq![OutputView::BroadcastEpochStarted])
    }
}

/// Commits every op up to `n`; a target at or below the commit number changes nothing.
pub open spec fn commit_step(b: BackupView, n: u64) -> (StateView, Seq<OutputView>) {
    if n <= b.ctx.commit_num {
        (StateView::Backup(b), Seq::empty())
    } else {
        let r = replay(b, b.ctx.commit_num as int, n as int);
        let done = with_ctx(r.0, CtxView { commit_num: n, ..r.0.ctx });
        if ends_epoch(b.ctx.log, n as int) {
            let d = role_decision(done);
            (d.0, r.1 + d.1)
        } else {
            (StateView::Backup(done), r.1)
        }
    }
}

pub open spec fn prepare_ok(b: BackupView, op: u64, cid: CorrelationId) -> OutputView {
    OutputView::Send(
        Envelope {
            to: b.primary,
            from: b.ctx.pid,
            msg: PeerMsg::PrepareOk(PrepareOk { epoch: b.ctx.epoch, view: b.ctx.view, op, from: b.ctx.pid }),
            cid,
        },
    )
}

pub open spec fn prepare_step(b: BackupView, m: Prepare, cid: CorrelationId, now: u64) -> (StateView, Seq<OutputView>) {
    if !fresh(b.ctx.epoch, b.ctx.view, m.epoch, m.view, Freshness::SameView) {
        (StateView::Backup(b), Seq::empty())
    } else {
        let h = heard_at(b, now);
        if m.op == b.ctx.op + 1 {
            let appended = with_ctx(h, CtxView { op: m.op, log: h.ctx.log.push(m.msg), ..h.ctx });
            let c = commit_step(appended, m.commit_num);
            (c.0, seq![prepare_ok(b, m.op, cid)] + c.1)
        } else if m.op > b.ctx.op + 1 {
            (StateView::StateTransfer(h.ctx), Seq::empty())
        } else {
            (StateView::Backup(h), Seq::empty())
        }
    }
}

pub open spec fn commit_msg_step(b: BackupView, m: Commit, now: u64) -> (StateView, Seq<OutputView>) {
    if !fresh(b.ctx.epoch, b.ctx.view, m.epoch, m.view, Freshness::SameView) {
        (StateView::Backup(b), Seq::empty())
    } else {
        let h = heard_at(b, now);
        if m.commit_num == b.ctx.commit_num {
            (StateView::Backup(h), Seq::empty())
        } else if m.commit_num == b.ctx.op {
            commit_step(h, m.commit_num)
        } else {
            (StateView::StateTransfer(h.ctx), Seq::empty())
        }
    }
}

/// The state announced by a new primary, before the primary is recomputed and
/// the announced commits are replayed.
pub open spec fn adopt_view(b: BackupView, view: u64, op: u64, log: Seq<ClientOp>, commit_num: u64, now: u64) -> BackupView {
    with_ctx(
        b,
        CtxView {
            last_received_time: now,
            view,
            op,
            log,
            last_normal_view: view,
            commit_num: if commit_num < b.ctx.commit_num { commit_num } else { b.ctx.commit_num },
            ..b.ctx
        },
    )
}

pub open spec fn become_backup_step(b: BackupView, view: u64, op: u64, log: Seq<ClientOp>, commit_num: u64, now: u64) -> (StateView, Seq<OutputView>) {
    let sp = set_primary_step(adopt_view(b, view, op, log, commit_num, now));
    let c = commit_step(sp.0, commit_num);
    (c.0, sp.1 + c.1)
}

pub open spec fn start_view_step(b: BackupView, m: StartView, now: u64) -> (StateView, Seq<OutputView>) {
    if !fresh(b.ctx.epoch, b.ctx.view, m.epoch, m.view, Freshness::LaterRound) {
        (StateView::Backup(b), Seq::empty())
    } else {
        become_backup_step(b, m.view, m.op, m.log@, m.commit_num, now)
    }
}

/// One message to each member of `peers` other than `me`, in membership order.
pub open spec fn broadcast(peers: Seq<Pid>, me: Pid, msg: PeerMsg, cid: CorrelationId) -> Seq<OutputView>
    decreases peers.len(),
{
    if peers.len() == 0 {
        Seq::empty()
    } else {
        let rest = broadcast(peers.drop_last(), me, msg, cid);
        if peers.last() == me {
            rest
        } else {
            rest.push(OutputView::Send(Envelope { to: peers.last(), from: me, msg, cid }))
        }
    }
}

pub open spec fn tick_step(b: BackupView, cid: CorrelationId, now: u64) -> (StateView, Seq<OutputView>) {
    if b.ctx.timed_out(now) {
        let ctx = CtxView { last_received_time: now, view: (b.ctx.view + 1) as u64, ..b.ctx };
        let proposal = PeerMsg::StartViewChange(StartViewChange { epoch: ctx.epoch, view: ctx.view, op: ctx.op });
        (StateView::StartViewChange(ctx), broadcast(ctx.new_config.replicas, ctx.pid, proposal, cid))
    } else {
        (StateView::Backup(b), Seq::empty())
    }
}

pub open spec fn view_change_step(b: BackupView, m: StartViewChange, from: Pid) -> (StateView, Seq<OutputView>) {
    if fresh(b.ctx.epoch, b.ctx.view, m.epoch, m.view, Freshness::LaterView) {
        (StateView::JoinViewChange(b.ctx, from, m), Seq::empty())
    } else {
        (StateView::Backup(b), Seq::empty())
    }
}

pub open spec fn do_view_change_step(b: BackupView, m: DoViewChange, from: Pid) -> (StateView, Seq<OutputView>) {
    if fresh(b.ctx.epoch, b.ctx.view, m.epoch, m.view, Freshness::LaterView) {
        (StateView::DoViewChange(b.ctx, from, m), Seq::empty())
    } else {
        (StateView::Backup(b), Seq::empty())
    }
}

pub open spec fn get_state_step(b: BackupView, m: GetState, from: Pid, cid: CorrelationId) -> (StateView, Seq<OutputView>) {
    if fresh(b.ctx.epoch, b.ctx.view, m.epoch, m.view, Freshness::SameView) {
        (StateView::Backup(b), seq![OutputView::SendNewState { to: from, op: m.op, cid }])
    } else {
        (StateView::Backup(b), Seq::empty())
    }
}

/// The whole reaction of a backup to one message.
pub open spec fn step(b: BackupView, msg: VrMsg, from: Pid, cid: CorrelationId, now: u64) -> (StateView, Seq<OutputView>) {
    match msg {
        VrMsg::Prepare(m) => prepare_step(b, m, cid, now),
        VrMsg::Commit(m) => commit_msg_step(b, m, now),
        VrMsg::StartViewChange(m) => view_change_step(b, m, from),
        VrMsg::DoViewChange(m) => do_view_change_step(b, m, from),
        VrMsg::StartView(m) => start_view_step(b, m, now),
        VrMsg::Tick => tick_step(b, cid, now),
        VrMsg::GetState(m) => get_state_step(b, m, from, cid),
        VrMsg::Recovery(m) => (StateView::Backup(b), seq![OutputView::RecoveryResponse { to: from, nonce: m.nonce, cid }]),
        VrMsg::StartEpoch(_) => (StateView::Backup(b), seq![OutputView::EpochStarted { to: from, cid }]),
        VrMsg::PrepareOk(_) => (StateView::Backup(b), Seq::empty()),
    }
}

} // verus!

verus! {

/// What the boundary guarantees of a message so that epochs never go back: a
/// reconfiguration that a primary proposes does not name an earlier epoch than
/// those the replica holds, and an announced view of a later epoch commits the
/// reconfiguration that opens that epoch.
pub open spec fn orders_epochs(b: BackupView, msg: VrMsg) -> bool {
    match msg {
        VrMsg::Prepare(m) => m.msg is Reconfiguration ==> epochs_ascend(
            b.ctx.log.push(m.msg),
            b.ctx.commit_num as int,
            b.ctx.epoch,
        ),
        VrMsg::StartView(m) => {
            let start = if m.commit_num < b.ctx.commit_num { m.commit_num } else { b.ctx.commit_num };
            fresh(b.ctx.epoch, b.ctx.view, m.epoch, m.view, Freshness::LaterRound) ==> {
                &&& epochs_ascend(m.log@, start as int, b.ctx.epoch)
                &&& m.epoch > b.ctx.epoch ==> exists|k: int|
                    start <= k < m.commit_num && (#[trigger] m.log@[k]) is Reconfiguration
                        && m.log@[k]->Reconfiguration_0.epoch == m.epoch
            }
        },
        _ => true,
    }
}

} // verus!
