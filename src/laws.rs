//! Properties of the backup role, proved over the model in `model`.
use vstd::prelude::*;
use crate::backup::BackupView;
use crate::fresh::{fresh, Freshness};
use crate::ids::{CorrelationId, Pid};
use crate::model::{
    adopt_view, broadcast, commit_step, ends_epoch, heard_at, orders_epochs, replay, set_primary_step, start_view_step, step,
    with_ctx,
};
use crate::msg::{epochs_ascend, log_wf, ClientOp, DoViewChange, OutputView, PeerMsg, Prepare, StartView, StartViewChange, VrMsg};
use crate::ctx::CtxView;
use crate::state::StateView;

verus! {

/// Committing log entries never touches the fields that ordering depends on,
/// and keeps the backup well formed.
pub proof fn lemma_replay_frame(b: BackupView, from: int, to: int)
    requires
        b.wf(),
        0 <= from <= to <= b.ctx.log.len(),
    ensures
        ({
            let r = replay(b, from, to).0;
            &&& r.wf()
            &&& r.ctx.pid == b.ctx.pid
            &&& r.ctx.view == b.ctx.view
            &&& r.ctx.op == b.ctx.op
            &&& r.ctx.commit_num == b.ctx.commit_num
            &&& r.ctx.log == b.ctx.log
            &&& r.ctx.last_normal_view == b.ctx.last_normal_view
            &&& r.ctx.last_received_time == b.ctx.last_received_time
        }),
    decreases to - from,
{
    if to > from {
        lemma_replay_frame(b, from, to - 1);
        let p = replay(b, from, to - 1).0;
        assert(p.ctx.log[to - 1].wf());
    }
}

/// The effects of committing only client requests: one execution per entry.
pub open spec fn executions(log: Seq<ClientOp>, from: int, to: int) -> Seq<OutputView> {
    Seq::new((to - from) as nat, |j: int| OutputView::Execute(log[from + j]->Request_0@))
}

proof fn lemma_replay_requests(b: BackupView, from: int, to: int)
    requires
        0 <= from <= to <= b.ctx.log.len(),
        forall|i: int| from <= i < to ==> #[trigger] b.ctx.log[i] is Request,
    ensures
        replay(b, from, to) == (b, executions(b.ctx.log, from, to)),
    decreases to - from,
{
    if to > from {
        lemma_replay_requests(b, from, to - 1);
        assert(b.ctx.log[to - 1] is Request);
        assert(replay(b, from, to).1 =~= executions(b.ctx.log, from, to));
    }
}

/// Committing up to an op at or below the commit number changes nothing and
/// requests nothing.
pub proof fn lemma_commit_below_is_noop(b: BackupView, x: u64)
    requires
        x <= b.ctx.commit_num,
    ensures
        commit_step(b, x) == (StateView::Backup(b), Seq::<OutputView>::empty()),
{
}

/// Committing `k` consecutive client requests executes each of them exactly
/// once, in ascending op order, and nothing else.
pub proof fn lemma_commit_requests_executes_each_once(b: BackupView, n: u64)
    requires
        b.wf(),
        b.ctx.commit_num < n <= b.ctx.op,
        forall|i: int| b.ctx.commit_num <= i < n ==> #[trigger] b.ctx.log[i] is Request,
    ensures
        ({
            let (s, o) = commit_step(b, n);
            &&& o == executions(b.ctx.log, b.ctx.commit_num as int, n as int)
            &&& o.len() == n - b.ctx.commit_num
            &&& forall|j: int| 0 <= j < o.len() ==> #[trigger] o[j] == OutputView::Execute(
                b.ctx.log[b.ctx.commit_num + j]->Request_0@,
            )
            &&& s is Backup
            &&& s.ctx().commit_num == n
        }),
{
    lemma_replay_requests(b, b.ctx.commit_num as int, n as int);
    assert(b.ctx.log[n - 1] is Request);
}

/// A reconfiguration that ends the log when the commit target reaches it
/// always decides the replica's role: it leaves when the new membership
/// excludes it, leads when it is the new primary, and otherwise stays a backup;
/// a replica that stays tells the replaced replicas that the epoch started.
pub proof fn lemma_reconfiguration_decides_role(b: BackupView, n: u64)
    requires
        b.wf(),
        b.ctx.commit_num < n <= b.ctx.op,
        ends_epoch(b.ctx.log, n as int),
    ensures
        ({
            let (s, o) = commit_step(b, n);
            let rc = b.ctx.log[n - 1]->Reconfiguration_0;
            let members = rc.replicas@;
            let leaving = !members.contains(b.ctx.pid);
            let leads = members[(b.ctx.view as int) % (members.len() as int)] == b.ctx.pid;
            &&& (s is Leaving <==> leaving)
            &&& (s is Primary <==> !leaving && leads)
            &&& (s is Backup <==> !leaving && !leads)
            &&& s.ctx().epoch == rc.epoch
            &&& s.ctx().commit_num == n
            &&& (!leaving ==> o.len() > 0 && o.last() == OutputView::BroadcastEpochStarted)
        }),
{
    let c = b.ctx.commit_num as int;
    lemma_replay_frame(b, c, n - 1);
    lemma_replay_frame(b, c, n as int);
}

/// A view-change proposal from another epoch, or for a view this replica has
/// already reached, leaves the backup exactly as it was and requests nothing.
pub proof fn lemma_stale_view_change_ignored(
    b: BackupView,
    m: StartViewChange,
    d: DoViewChange,
    from: Pid,
    cid: CorrelationId,
    now: u64,
)
    ensures
        (m.epoch != b.ctx.epoch || m.view <= b.ctx.view) ==> step(b, VrMsg::StartViewChange(m), from, cid, now) == (
        StateView::Backup(b), Seq::<OutputView>::empty()),
        (d.epoch != b.ctx.epoch || d.view <= b.ctx.view) ==> step(b, VrMsg::DoViewChange(d), from, cid, now) == (
        StateView::Backup(b), Seq::<OutputView>::empty()),
{
}

pub proof fn lemma_broadcast_nonempty(peers: Seq<Pid>, me: Pid, msg: PeerMsg, cid: CorrelationId)
    requires
        exists|i: int| 0 <= i < peers.len() && #[trigger] peers[i] != me,
    ensures
        broadcast(peers, me, msg, cid).len() > 0,
    decreases peers.len(),
{
    if peers.last() == me {
        let i = choose|i: int| 0 <= i < peers.len() && #[trigger] peers[i] != me;
        assert(peers.drop_last()[i] != me);
        lemma_broadcast_nonempty(peers.drop_last(), me, msg, cid);
    }
}

/// Before the idle timeout has passed a tick changes nothing; once it has, the
/// backup moves to the next view and proposes it to its peers.
pub proof fn lemma_tick_timeout(b: BackupView, from: Pid, cid: CorrelationId, now: u64)
    requires
        b.wf(),
        b.ctx.view < u64::MAX,
    ensures
        (now as int) - (b.ctx.last_received_time as int) < b.ctx.idle_timeout ==> step(b, VrMsg::Tick, from, cid, now)
            == (StateView::Backup(b), Seq::<OutputView>::empty()),
        (now as int) - (b.ctx.last_received_time as int) >= b.ctx.idle_timeout ==> ({
            let (s, o) = step(b, VrMsg::Tick, from, cid, now);
            &&& s is StartViewChange
            &&& s.ctx().view == b.ctx.view + 1
            &&& (exists|i: int| 0 <= i < b.ctx.new_config.replicas.len()
                && #[trigger] b.ctx.new_config.replicas[i] != b.ctx.pid) ==> o.len() >= 1
        }),
{
    if (now as int) - (b.ctx.last_received_time as int) >= b.ctx.idle_timeout {
        let ctx = step(b, VrMsg::Tick, from, cid, now).0.ctx();
        if exists|i: int| 0 <= i < b.ctx.new_config.replicas.len() && #[trigger] b.ctx.new_config.replicas[i] != b.ctx.pid {
            lemma_broadcast_nonempty(
                ctx.new_config.replicas,
                ctx.pid,
                PeerMsg::StartViewChange(StartViewChange { epoch: ctx.epoch, view: ctx.view, op: ctx.op }),
                cid,
            );
        }
    }
}

/// A `StartView` either replaces the view, op number, log, commit number and
/// last normal view all together, or, when stale, changes nothing at all.
pub proof fn lemma_start_view_all_or_nothing(b: BackupView, m: StartView, now: u64)
    requires
        b.wf(),
        m.wf(),
    ensures
        ({
            let (s, o) = start_view_step(b, m, now);
            &&& !fresh(b.ctx.epoch, b.ctx.view, m.epoch, m.view, Freshness::LaterRound) ==> s == StateView::Backup(b)
                && o.len() == 0
            &&& fresh(b.ctx.epoch, b.ctx.view, m.epoch, m.view, Freshness::LaterRound) ==> {
                &&& s.ctx().view == m.view
                &&& s.ctx().op == m.op
                &&& s.ctx().log == m.log@
                &&& s.ctx().commit_num == m.commit_num
                &&& s.ctx().last_normal_view == m.view
            }
        }),
{
    if fresh(b.ctx.epoch, b.ctx.view, m.epoch, m.view, Freshness::LaterRound) {
        let a = adopt_view(b, m.view, m.op, m.log@, m.commit_num, now);
        let p = set_primary_step(a).0;
        assert(p.wf());
        if m.commit_num > p.ctx.commit_num {
            lemma_replay_frame(p, p.ctx.commit_num as int, m.commit_num as int);
        }
    }
}

/// A prepare that skips past the next op number is neither appended nor
/// acknowledged: the backup turns to state transfer with its log and op
/// numbers as they were.
pub proof fn lemma_prepare_gap_transfers_state(b: BackupView, m: Prepare, from: Pid, cid: CorrelationId, now: u64)
    requires
        b.wf(),
        fresh(b.ctx.epoch, b.ctx.view, m.epoch, m.view, Freshness::SameView),
        m.op >= b.ctx.op + 2,
    ensures
        ({
            let (s, o) = step(b, VrMsg::Prepare(m), from, cid, now);
            &&& s is StateTransfer
            &&& s.ctx().log == b.ctx.log
            &&& s.ctx().op == b.ctx.op
            &&& s.ctx().commit_num == b.ctx.commit_num
            &&& o.len() == 0
        }),
{
}

/// Committing entries in ascending epoch order never lowers the epoch, and
/// ends at or above the epoch of every reconfiguration committed.
pub proof fn lemma_replay_epochs(b: BackupView, from: int, to: int)
    requires
        b.wf(),
        0 <= from <= to <= b.ctx.log.len(),
        epochs_ascend(b.ctx.log, from, b.ctx.epoch),
    ensures
        ({
            let r = replay(b, from, to).0;
            &&& r.ctx.epoch >= b.ctx.epoch
            &&& epochs_ascend(b.ctx.log, to, r.ctx.epoch)
            &&& forall|k: int|
                from <= k < to && (#[trigger] b.ctx.log[k]) is Reconfiguration ==> r.ctx.epoch
                    >= b.ctx.log[k]->Reconfiguration_0.epoch
        }),
    decreases to - from,
{
    if to > from {
        lemma_replay_epochs(b, from, to - 1);
        lemma_replay_frame(b, from, to - 1);
        let log = b.ctx.log;
        if log[to - 1] is Reconfiguration {
            let e = log[to - 1]->Reconfiguration_0.epoch;
            assert forall|k: int| from <= k < to && (#[trigger] log[k]) is Reconfiguration implies e
                >= log[k]->Reconfiguration_0.epoch by {
                if k < to - 1 {
                    assert(log[to - 1] is Reconfiguration);
                }
            }
        }
    }
}

/// Committing keeps the view, never lowers the epoch, and keeps the
/// reconfigurations still to commit in ascending epoch order.
pub proof fn lemma_commit_keeps_order(b: BackupView, n: u64)
    requires
        b.wf(),
        n <= b.ctx.op,
        b.ctx.epochs_ordered(),
    ensures
        ({
            let s = commit_step(b, n).0;
            &&& s.ctx().epoch >= b.ctx.epoch
            &&& s.ctx().view == b.ctx.view
            &&& s.ctx().epochs_ordered()
            &&& forall|k: int|
                b.ctx.commit_num <= k < n && (#[trigger] b.ctx.log[k]) is Reconfiguration ==> s.ctx().epoch
                    >= b.ctx.log[k]->Reconfiguration_0.epoch
        }),
{
    if n > b.ctx.commit_num {
        lemma_replay_epochs(b, b.ctx.commit_num as int, n as int);
        lemma_replay_frame(b, b.ctx.commit_num as int, n as int);
    }
}

/// No message takes a backup to an earlier epoch, nor to an earlier view of
/// the same epoch, and the reconfigurations left to commit stay in order.
pub proof fn lemma_step_keeps_order(b: BackupView, msg: VrMsg, from: Pid, cid: CorrelationId, now: u64)
    requires
        b.wf(),
        msg.wf(),
        b.ctx.epochs_ordered(),
        orders_epochs(b, msg),
        msg is Tick ==> b.ctx.view < u64::MAX,
    ensures
        ({
            let s = step(b, msg, from, cid, now).0;
            &&& s.ctx().epoch >= b.ctx.epoch
            &&& s.ctx().epoch == b.ctx.epoch ==> s.ctx().view >= b.ctx.view
            &&& s.ctx().epochs_ordered()
        }),
{
    match msg {
        VrMsg::Prepare(m) => {
            if fresh(b.ctx.epoch, b.ctx.view, m.epoch, m.view, Freshness::SameView) && m.op == b.ctx.op + 1 {
                let h = heard_at(b, now);
                let log = h.ctx.log.push(m.msg);
                let appended = with_ctx(h, CtxView { op: m.op, log, ..h.ctx });
                assert(log_wf(log)) by {
                    assert forall|j: int| 0 <= j < log.len() implies #[trigger] log[j].wf() by {
                        if j < b.ctx.log.len() {
                            assert(b.ctx.log[j].wf());
                        }
                    }
                }
                assert(epochs_ascend(log, b.ctx.commit_num as int, b.ctx.epoch)) by {
                    if m.msg is Request {
                        assert forall|i: int, j: int|
                            b.ctx.commit_num <= i < j < log.len() && (#[trigger] log[i]) is Reconfiguration && (
                            #[trigger] log[j]) is Reconfiguration implies log[i]->Reconfiguration_0.epoch
                            <= log[j]->Reconfiguration_0.epoch by {
                            assert(b.ctx.log[i] is Reconfiguration && b.ctx.log[j] is Reconfiguration);
                        }
                        assert forall|i: int|
                            b.ctx.commit_num <= i < log.len() && (#[trigger] log[i]) is Reconfiguration implies b.ctx.epoch
                            <= log[i]->Reconfiguration_0.epoch by {
                            assert(b.ctx.log[i] is Reconfiguration);
                        }
                    }
                }
                lemma_commit_keeps_order(appended, m.commit_num);
            }
        },
        VrMsg::Commit(m) => {
            if fresh(b.ctx.epoch, b.ctx.view, m.epoch, m.view, Freshness::SameView) && m.commit_num
                != b.ctx.commit_num && m.commit_num == b.ctx.op {
                lemma_commit_keeps_order(heard_at(b, now), m.commit_num);
            }
        },
        VrMsg::StartView(m) => {
            if fresh(b.ctx.epoch, b.ctx.view, m.epoch, m.view, Freshness::LaterRound) {
                let a = adopt_view(b, m.view, m.op, m.log@, m.commit_num, now);
                let p = set_primary_step(a).0;
                assert(p.wf());
                lemma_commit_keeps_order(p, m.commit_num);
                if m.epoch > b.ctx.epoch {
                    let k = choose|k: int|
                        p.ctx.commit_num <= k < m.commit_num && (#[trigger] m.log@[k]) is Reconfiguration
                            && m.log@[k]->Reconfiguration_0.epoch == m.epoch;
                    assert(p.ctx.log[k] is Reconfiguration);
                }
            }
        },
        _ => {},
    }
}

/// Every message of a broadcast carries the proposal from `me` to a member of
/// `peers` other than `me`.
pub proof fn lemma_broadcast_targets_peers(peers: Seq<Pid>, me: Pid, msg: PeerMsg, cid: CorrelationId)
    ensures
        forall|k: int|
            0 <= k < broadcast(peers, me, msg, cid).len() ==> {
                let o = #[trigger] broadcast(peers, me, msg, cid)[k];
                &&& o is Send
                &&& o->Send_0.msg == msg
                &&& o->Send_0.from == me
                &&& o->Send_0.cid == cid
                &&& o->Send_0.to != me
                &&& peers.contains(o->Send_0.to)
            },
    decreases peers.len(),
{
    if peers.len() > 0 {
        lemma_broadcast_targets_peers(peers.drop_last(), me, msg, cid);
        let rest = broadcast(peers.drop_last(), me, msg, cid);
        assert forall|k: int| 0 <= k < rest.len() implies peers.contains(#[trigger] rest[k]->Send_0.to) by {
            let t = rest[k]->Send_0.to;
            let i = choose|i: int| 0 <= i < peers.drop_last().len() && peers.drop_last()[i] == t;
            assert(peers[i] == t);
        }
        assert(peers[peers.len() - 1] == peers.last());
    }
}

} // verus!
