use vstd::prelude::*;
use crate::clock::monotonic_now_ns;
use crate::ctx::{CtxView, VrCtx};
use crate::fresh::{fresh, is_fresh, Freshness};
use crate::ids::{CorrelationId, Pid};
use crate::model::{
    adopt_view, apply_entry, become_backup_step, ends_epoch, orders_epochs, broadcast, commit_msg_step, commit_step, do_view_change_step,
    get_state_step, prepare_ok, prepare_step, replay, role_decision, set_primary_step, start_view_step, step,
    tick_step, view_change_step,
};
use crate::msg::{
    copy_pids, emit, epochs_ascend, log_wf, outs_view, ClientOp, Commit, DoViewChange, Envelope, GetState, Output,
    OutputView, PeerMsg, Prepare, PrepareOk, Recovery, StartView, StartViewChange, VrMsg,
};
use crate::laws::{
    executions, lemma_commit_keeps_order, lemma_commit_requests_executes_each_once,
    lemma_broadcast_nonempty, lemma_broadcast_targets_peers, lemma_reconfiguration_decides_role,
    lemma_start_view_all_or_nothing, lemma_step_keeps_order,
};
use crate::state::{StateView, VrState};

verus! {

/// A replica following the primary of its view in normal operation.
#[derive(Debug)]
pub struct Backup {
    pub ctx: VrCtx,
    pub primary: Pid,
}

pub struct BackupView {
    pub ctx: CtxView,
    pub primary: Pid,
}

impl View for Backup {
    type V = BackupView;

    open spec fn view(&self) -> BackupView {
        BackupView { ctx: self.ctx@, primary: self.primary }
    }
}

impl BackupView {
    /// The context is consistent and the remembered primary is the computed one.
    pub open spec fn wf(self) -> bool {
        self.ctx.wf() && self.primary == self.ctx.primary()
    }
}

impl Backup {
    pub fn new(ctx: VrCtx) -> (r: Backup)
        requires
            ctx.wf(),
        ensures
            r@.ctx == ctx@,
            r@.wf(),
    {
        let primary = ctx.compute_primary();
        Backup { ctx, primary }
    }

    fn set_primary(&mut self, output: &mut Vec<Output>)
        requires
            old(self).ctx.wf(),
        ensures
            final(self)@ == set_primary_step(old(self)@).0,
            outs_view(final(output)@) == outs_view(old(output)@) + set_primary_step(old(self)@).1,
    {
        let p = self.ctx.compute_primary();
        if p != self.primary {
            self.primary = p;
            emit(output, Output::NewPrimary(p));
            assert(outs_view(output@) =~= outs_view(old(output)@) + seq![OutputView::NewPrimary(p)]);
        } else {
            assert(outs_view(output@) =~= outs_view(old(output)@) + Seq::<OutputView>::empty());
        }
    }

    fn commit_entry(&mut self, i: usize, output: &mut Vec<Output>)
        requires
            old(self)@.wf(),
            i < old(self).ctx.log@.len(),
        ensures
            final(self)@ == apply_entry(old(self)@, i as int).0,
            outs_view(final(output)@) == outs_view(old(output)@) + apply_entry(old(self)@, i as int).1,
            final(self)@.wf(),
    {
        let ghost before = outs_view(output@);
        let len = self.ctx.log.len();
        assert(self.ctx.log@[i as int].wf());
        match &self.ctx.log[i] {
            ClientOp::Request(r) => {
                let d = r.duplicate();
                emit(output, Output::Execute(d));
                assert(outs_view(output@) =~= before + apply_entry(old(self)@, i as int).1);
            },
            ClientOp::Reconfiguration(rc) => {
                assert(i < len);
                let epoch = rc.epoch;
                let replicas = copy_pids(&rc.replicas);
                self.ctx.update_for_new_epoch(epoch, (i as u64) + 1, &replicas);
                emit(output, Output::Reconfigured { epoch, replicas });
                self.set_primary(output);
                assert(outs_view(output@) =~= before + apply_entry(old(self)@, i as int).1);
            },
        }
    }

    /// Decides the role after committing a reconfiguration that ends the log.
    fn enter_transitioning(self, output: &mut Vec<Output>) -> (r: VrState)
        requires
            self@.wf(),
        ensures
            r@ == role_decision(self@).0,
            r@.wf(),
            outs_view(final(output)@) == outs_view(old(output)@) + role_decision(self@).1,
    {
        if self.ctx.is_leaving() {
            assert(outs_view(output@) =~= outs_view(old(output)@) + Seq::<OutputView>::empty());
            return VrState::Leaving(self.ctx);
        }
        emit(output, Output::BroadcastEpochStarted);
        assert(outs_view(output@) =~= outs_view(old(output)@) + seq![OutputView::BroadcastEpochStarted]);
        if self.ctx.is_primary() {
            let mut ctx = self.ctx;
            ctx.reconfiguration_in_progress = false;
            return VrState::Primary(ctx);
        }
        VrState::Backup(self)
    }

    /// Commits every op up to `new_commit_num` in ascending order: requests go to
    /// the backend, reconfigurations move the replica to their epoch. A target at
    /// or below the commit number changes nothing.
    pub fn commit(self, new_commit_num: u64, output: &mut Vec<Output>) -> (r: VrState)
        requires
            self@.wf(),
            new_commit_num <= self.ctx.op,
        ensures
            r@ == commit_step(self@, new_commit_num).0,
            r@.wf(),
            outs_view(final(output)@) == outs_view(old(output)@) + commit_step(self@, new_commit_num).1,
            self@.ctx.epochs_ordered() ==> {
                &&& r@.ctx().epoch >= self.ctx.epoch
                &&& r@.ctx().view == self.ctx.view
                &&& r@.ctx().epochs_ordered()
            },
            self.ctx.commit_num < new_commit_num && (forall|i: int|
                self.ctx.commit_num <= i < new_commit_num ==> #[trigger] self.ctx.log@[i] is Request) ==> {
                &&& outs_view(final(output)@) == outs_view(old(output)@) + executions(
                    self.ctx.log@,
                    self.ctx.commit_num as int,
                    new_commit_num as int,
                )
                &&& r@ is Backup
                &&& r@.ctx().commit_num == new_commit_num
            },
            self.ctx.commit_num < new_commit_num && ends_epoch(self.ctx.log@, new_commit_num as int) ==> {
                let rc = self.ctx.log@[new_commit_num - 1]->Reconfiguration_0;
                let leaving = !rc.replicas@.contains(self.ctx.pid);
                let leads = rc.replicas@[(self.ctx.view as int) % (rc.replicas@.len() as int)] == self.ctx.pid;
                &&& (r@ is Leaving <==> leaving)
                &&& (r@ is Primary <==> !leaving && leads)
                &&& (r@ is Backup <==> !leaving && !leads)
                &&& r@.ctx().epoch == rc.epoch
                &&& r@.ctx().commit_num == new_commit_num
            },
    {
        proof {
            if self@.ctx.epochs_ordered() {
                lemma_commit_keeps_order(self@, new_commit_num);
            }
            if self.ctx.commit_num < new_commit_num {
                if forall|i: int| self.ctx.commit_num <= i < new_commit_num ==> #[trigger] self.ctx.log@[i] is Request {
                    lemma_commit_requests_executes_each_once(self@, new_commit_num);
                }
                if ends_epoch(self.ctx.log@, new_commit_num as int) {
                    lemma_reconfiguration_decides_role(self@, new_commit_num);
                }
            }
        }
        let ghost b0 = self@;
        let ghost out0 = outs_view(output@);
        if new_commit_num <= self.ctx.commit_num {
            assert(outs_view(output@) =~= out0 + Seq::<OutputView>::empty());
            return VrState::Backup(self);
        }
        let mut b = self;
        let len = b.ctx.log.len();
        let mut i: usize = b.ctx.commit_num as usize;
        assert(outs_view(output@) =~= out0 + replay(b0, b0.ctx.commit_num as int, i as int).1);
        while i < new_commit_num as usize
            invariant
                b0.wf(),
                b0.ctx.commit_num <= i <= new_commit_num,
                b0.ctx.op <= len,
                len == b0.ctx.log.len(),
                new_commit_num <= b0.ctx.op,
                b@ == replay(b0, b0.ctx.commit_num as int, i as int).0,
                outs_view(output@) == out0 + replay(b0, b0.ctx.commit_num as int, i as int).1,
                b@.wf(),
                b.ctx.log@ == b0.ctx.log,
                b.ctx.op == b0.ctx.op,
            decreases new_commit_num - i,
        {
            b.commit_entry(i, output);
            proof {
                let r = replay(b0, b0.ctx.commit_num as int, i as int);
                assert(outs_view(output@) =~= out0 + (r.1 + apply_entry(r.0, i as int).1));
            }
            i = i + 1;
        }
        b.ctx.commit_num = new_commit_num;
        let is_last = i == len;
        if is_last && matches!(b.ctx.log[i - 1], ClientOp::Reconfiguration(_)) {
            let r = b.enter_transitioning(output);
            assert(outs_view(output@) =~= out0 + (replay(b0, b0.ctx.commit_num as int, new_commit_num as int).1
                + role_decision(b@).1));
            return r;
        }
        VrState::Backup(b)
    }

    /// The acknowledgement of the op most recently prepared.
    pub fn prepare_ok_msg(&self) -> (r: PeerMsg)
        ensures
            r == PeerMsg::PrepareOk(
                PrepareOk { epoch: self.ctx.epoch, view: self.ctx.view, op: self.ctx.op, from: self.ctx.pid },
            ),
    {
        PeerMsg::PrepareOk(PrepareOk { epoch: self.ctx.epoch, view: self.ctx.view, op: self.ctx.op, from: self.ctx.pid })
    }

    fn send_to_primary(&self, msg: PeerMsg, cid: CorrelationId) -> (r: Output)
        ensures
            r@ == OutputView::Send(Envelope { to: self.primary, from: self.ctx.pid, msg, cid }),
    {
        Output::Send(Envelope { to: self.primary, from: self.ctx.pid, msg, cid })
    }

    /// Appends the next op to the log and acknowledges it to the primary.
    fn send_prepare_ok(&mut self, entry: ClientOp, cid: CorrelationId, output: &mut Vec<Output>)
        requires
            old(self).ctx.op < u64::MAX,
        ensures
            final(self)@ == (BackupView {
                ctx: CtxView { op: (old(self).ctx.op + 1) as u64, log: old(self).ctx.log@.push(entry), ..old(self)@.ctx },
                primary: old(self).primary,
            }),
            outs_view(final(output)@) == outs_view(old(output)@).push(
                prepare_ok(old(self)@, (old(self).ctx.op + 1) as u64, cid),
            ),
    {
        self.ctx.op = self.ctx.op + 1;
        self.ctx.log.push(entry);
        let m = self.prepare_ok_msg();
        let o = self.send_to_primary(m, cid);
        emit(output, o);
    }

    pub fn handle_prepare(self, msg: Prepare, cid: CorrelationId, now: u64, output: &mut Vec<Output>) -> (r: VrState)
        requires
            self@.wf(),
            msg.commit_num <= msg.op,
            msg.msg.wf(),
        ensures
            r@ == prepare_step(self@, msg, cid, now).0,
            outs_view(final(output)@) == outs_view(old(output)@) + prepare_step(self@, msg, cid, now).1,
            r@.wf(),
            fresh(self.ctx.epoch, self.ctx.view, msg.epoch, msg.view, Freshness::SameView) && msg.op > self.ctx.op + 1
                ==> {
                &&& r@ is StateTransfer
                &&& r@.ctx().log == self.ctx.log@
                &&& r@.ctx().op == self.ctx.op
                &&& r@.ctx().commit_num == self.ctx.commit_num
                &&& r@.ctx().view == self.ctx.view
                &&& outs_view(final(output)@) == outs_view(old(output)@)
            },
    {
        let ghost out0 = outs_view(output@);
        let ghost b0 = self@;
        let ghost m0 = msg;
        if !is_fresh(self.ctx.epoch, self.ctx.view, msg.epoch, msg.view, Freshness::SameView) {
            assert(outs_view(output@) =~= out0 + Seq::<OutputView>::empty());
            return VrState::Backup(self);
        }
        let mut b = self;
        b.ctx.last_received_time = now;
        let Prepare { op, commit_num, msg: entry, .. } = msg;
        if op > b.ctx.op && op - b.ctx.op == 1 {
            b.send_prepare_ok(entry, cid, output);
            assert(log_wf(b.ctx.log@)) by {
                assert forall|j: int| 0 <= j < b.ctx.log@.len() implies #[trigger] b.ctx.log@[j].wf() by {
                    if j < b0.ctx.log.len() {
                        assert(b0.ctx.log[j].wf());
                    }
                }
            }
            let r = b.commit(commit_num, output);
            assert(outs_view(output@) =~= out0 + prepare_step(b0, m0, cid, now).1);
            return r;
        } else if op > b.ctx.op {
            assert(outs_view(output@) =~= out0 + Seq::<OutputView>::empty());
            return VrState::StateTransfer(b.ctx);
        }
        assert(outs_view(output@) =~= out0 + Seq::<OutputView>::empty());
        VrState::Backup(b)
    }

    pub fn handle_commit(self, msg: Commit, now: u64, output: &mut Vec<Output>) -> (r: VrState)
        requires
            self@.wf(),
        ensures
            r@ == commit_msg_step(self@, msg, now).0,
            outs_view(final(output)@) == outs_view(old(output)@) + commit_msg_step(self@, msg, now).1,
            r@.wf(),
    {
        let ghost out0 = outs_view(output@);
        if !is_fresh(self.ctx.epoch, self.ctx.view, msg.epoch, msg.view, Freshness::SameView) {
            assert(outs_view(output@) =~= out0 + Seq::<OutputView>::empty());
            return VrState::Backup(self);
        }
        let mut b = self;
        b.ctx.last_received_time = now;
        if msg.commit_num == b.ctx.commit_num {
            assert(outs_view(output@) =~= out0 + Seq::<OutputView>::empty());
            return VrState::Backup(b);
        } else if msg.commit_num == b.ctx.op {
            return b.commit(msg.commit_num, output);
        }
        assert(outs_view(output@) =~= out0 + Seq::<OutputView>::empty());
        VrState::StateTransfer(b.ctx)
    }

    pub fn handle_start_view_change(self, msg: StartViewChange, from: Pid) -> (r: VrState)
        ensures
            r@ == view_change_step(self@, msg, from).0,
    {
        if !is_fresh(self.ctx.epoch, self.ctx.view, msg.epoch, msg.view, Freshness::LaterView) {
            return VrState::Backup(self);
        }
        VrState::JoinViewChange(self.ctx, from, msg)
    }

    pub fn handle_do_view_change(self, msg: DoViewChange, from: Pid) -> (r: VrState)
        ensures
            r@ == do_view_change_step(self@, msg, from).0,
    {
        if !is_fresh(self.ctx.epoch, self.ctx.view, msg.epoch, msg.view, Freshness::LaterView) {
            return VrState::Backup(self);
        }
        VrState::DoViewChange(self.ctx, from, msg)
    }

    /// Adopts the state that the primary of a new view announced, then commits
    /// up to its commit number.
    pub fn become_backup(
        self,
        view: u64,
        op: u64,
        log: Vec<ClientOp>,
        commit_num: u64,
        now: u64,
        output: &mut Vec<Output>,
    ) -> (r: VrState)
        requires
            self@.wf(),
            commit_num <= op,
            op <= log@.len(),
            log_wf(log@),
        ensures
            r@ == become_backup_step(self@, view, op, log@, commit_num, now).0,
            outs_view(final(output)@) == outs_view(old(output)@) + become_backup_step(self@, view, op, log@, commit_num, now).1,
            r@.wf(),
            epochs_ascend(
                log@,
                (if commit_num < self.ctx.commit_num { commit_num } else { self.ctx.commit_num }) as int,
                self.ctx.epoch,
            ) ==> r@.ctx().epoch >= self.ctx.epoch && r@.ctx().view == view && r@.ctx().epochs_ordered(),
    {
        proof {
            let p = set_primary_step(adopt_view(self@, view, op, log@, commit_num, now)).0;
            if p.ctx.epochs_ordered() {
                lemma_commit_keeps_order(p, commit_num);
            }
        }
        let ghost out0 = outs_view(output@);
        let ghost b0 = self@;
        let ghost l0 = log@;
        let mut b = self;
        b.ctx.last_received_time = now;
        b.ctx.view = view;
        b.ctx.op = op;
        b.ctx.log = log;
        b.ctx.last_normal_view = view;
        if commit_num < b.ctx.commit_num {
            b.ctx.commit_num = commit_num;
        }
        b.set_primary(output);
        let r = b.commit(commit_num, output);
        assert(outs_view(output@) =~= out0 + become_backup_step(b0, view, op, l0, commit_num, now).1);
        r
    }

    pub fn handle_start_view(self, msg: StartView, now: u64, output: &mut Vec<Output>) -> (r: VrState)
        requires
            self@.wf(),
            msg.wf(),
        ensures
            r@ == start_view_step(self@, msg, now).0,
            outs_view(final(output)@) == outs_view(old(output)@) + start_view_step(self@, msg, now).1,
            r@.wf(),
            !fresh(self.ctx.epoch, self.ctx.view, msg.epoch, msg.view, Freshness::LaterRound) ==> r@ == StateView::Backup(
                self@,
            ) && outs_view(final(output)@) == outs_view(old(output)@),
            fresh(self.ctx.epoch, self.ctx.view, msg.epoch, msg.view, Freshness::LaterRound) ==> {
                &&& r@.ctx().view == msg.view
                &&& r@.ctx().op == msg.op
                &&& r@.ctx().log == msg.log@
                &&& r@.ctx().commit_num == msg.commit_num
                &&& r@.ctx().last_normal_view == msg.view
            },
            fresh(self.ctx.epoch, self.ctx.view, msg.epoch, msg.view, Freshness::LaterRound) && (CtxView {
                view: msg.view,
                ..self@.ctx
            }).primary() != self.primary ==> outs_view(final(output)@)[old(output)@.len() as int]
                == OutputView::NewPrimary((CtxView { view: msg.view, ..self@.ctx }).primary()),
    {
        proof {
            lemma_start_view_all_or_nothing(self@, msg, now);
        }
        if !is_fresh(self.ctx.epoch, self.ctx.view, msg.epoch, msg.view, Freshness::LaterRound) {
            assert(outs_view(output@) =~= outs_view(old(output)@) + Seq::<OutputView>::empty());
            return VrState::Backup(self);
        }
        let StartView { view, op, log, commit_num, .. } = msg;
        self.become_backup(view, op, log, commit_num, now, output)
    }

    /// Proposes `msg` to every member of the current membership but this replica.
    fn broadcast_start_view_change(ctx: &VrCtx, msg: PeerMsg, cid: CorrelationId, output: &mut Vec<Output>)
        ensures
            outs_view(final(output)@) == outs_view(old(output)@) + broadcast(ctx.new_config.replicas@, ctx.pid, msg, cid),
    {
        let ghost out0 = outs_view(output@);
        let ghost peers = ctx.new_config.replicas@;
        let mut j: usize = 0;
        assert(peers.subrange(0, 0) =~= Seq::<Pid>::empty());
        assert(outs_view(output@) =~= out0 + broadcast(peers.subrange(0, 0), ctx.pid, msg, cid));
        while j < ctx.new_config.replicas.len()
            invariant
                j <= peers.len(),
                peers == ctx.new_config.replicas@,
                outs_view(output@) == out0 + broadcast(peers.subrange(0, j as int), ctx.pid, msg, cid),
            decreases peers.len() - j,
        {
            let to = ctx.new_config.replicas[j];
            let ghost prefix = peers.subrange(0, j as int);
            let ghost next = peers.subrange(0, j + 1);
            assert(next.drop_last() =~= prefix);
            assert(next.last() == to);
            if to != ctx.pid {
                emit(output, Output::Send(Envelope { to, from: ctx.pid, msg, cid }));
            }
            j = j + 1;
            assert(outs_view(output@) =~= out0 + broadcast(next, ctx.pid, msg, cid));
        }
        assert(peers.subrange(0, peers.len() as int) =~= peers);
    }

    pub fn handle_tick(self, cid: CorrelationId, now: u64, output: &mut Vec<Output>) -> (r: VrState)
        requires
            self@.wf(),
            self.ctx.view < u64::MAX,
        ensures
            r@ == tick_step(self@, cid, now).0,
            outs_view(final(output)@) == outs_view(old(output)@) + tick_step(self@, cid, now).1,
            r@.wf(),
            (now as int) - (self.ctx.last_received_time as int) < self.ctx.idle_timeout ==> r@ == StateView::Backup(self@)
                && outs_view(final(output)@) == outs_view(old(output)@),
            (now as int) - (self.ctx.last_received_time as int) >= self.ctx.idle_timeout ==> {
                &&& r@ is StartViewChange
                &&& r@.ctx().view == self.ctx.view + 1
                &&& forall|k: int|
                    old(output)@.len() <= k < final(output)@.len() ==> {
                        let o = #[trigger] outs_view(final(output)@)[k];
                        &&& o is Send
                        &&& o->Send_0.msg == PeerMsg::StartViewChange(
                            StartViewChange { epoch: self.ctx.epoch, view: (self.ctx.view + 1) as u64, op: self.ctx.op },
                        )
                        &&& o->Send_0.to != self.ctx.pid
                        &&& self.ctx.new_config.replicas@.contains(o->Send_0.to)
                    }
                &&& (exists|i: int|
                    0 <= i < self.ctx.new_config.replicas@.len() && #[trigger] self.ctx.new_config.replicas@[i]
                        != self.ctx.pid) ==> final(output)@.len() >= old(output)@.len() + 1
            },
    {
        proof {
            let proposal = PeerMsg::StartViewChange(
                StartViewChange { epoch: self.ctx.epoch, view: (self.ctx.view + 1) as u64, op: self.ctx.op },
            );
            lemma_broadcast_targets_peers(self.ctx.new_config.replicas@, self.ctx.pid, proposal, cid);
            if exists|i: int|
                0 <= i < self.ctx.new_config.replicas@.len() && #[trigger] self.ctx.new_config.replicas@[i]
                    != self.ctx.pid {
                lemma_broadcast_nonempty(self.ctx.new_config.replicas@, self.ctx.pid, proposal, cid);
            }
        }
        if self.ctx.idle_timeout_elapsed(now) {
            let mut ctx = self.ctx;
            ctx.last_received_time = now;
            ctx.view = ctx.view + 1;
            let proposal = PeerMsg::StartViewChange(StartViewChange { epoch: ctx.epoch, view: ctx.view, op: ctx.op });
            let ghost before = old(output)@;
            Backup::broadcast_start_view_change(&ctx, proposal, cid, output);
            proof {
                let bc = broadcast(ctx.new_config.replicas@, ctx.pid, proposal, cid);
                assert(outs_view(output@).len() == output@.len());
                assert(outs_view(before).len() == before.len());
                assert forall|k: int| before.len() <= k < output@.len() implies #[trigger] outs_view(output@)[k]
                    == bc[k - before.len()] by {}
            }
            return VrState::StartViewChange(ctx);
        }
        assert(outs_view(output@) =~= outs_view(old(output)@) + Seq::<OutputView>::empty());
        VrState::Backup(self)
    }

    pub fn handle_get_state(self, msg: GetState, from: Pid, cid: CorrelationId, output: &mut Vec<Output>) -> (r: VrState)
        ensures
            r@ == get_state_step(self@, msg, from, cid).0,
            outs_view(final(output)@) == outs_view(old(output)@) + get_state_step(self@, msg, from, cid).1,
    {
        let GetState { epoch, view, op } = msg;
        if !is_fresh(self.ctx.epoch, self.ctx.view, epoch, view, Freshness::SameView) {
            assert(outs_view(output@) =~= outs_view(old(output)@) + Seq::<OutputView>::empty());
            return VrState::Backup(self);
        }
        emit(output, Output::SendNewState { to: from, op, cid });
        assert(outs_view(output@) =~= outs_view(old(output)@) + get_state_step(self@, msg, from, cid).1);
        VrState::Backup(self)
    }

    pub fn handle_recovery(self, msg: Recovery, from: Pid, cid: CorrelationId, output: &mut Vec<Output>) -> (r: VrState)
        ensures
            r@ == StateView::Backup(self@),
            outs_view(final(output)@) == outs_view(old(output)@).push(
                OutputView::RecoveryResponse { to: from, nonce: msg.nonce, cid },
            ),
    {
        emit(output, Output::RecoveryResponse { to: from, nonce: msg.nonce, cid });
        VrState::Backup(self)
    }

    pub fn handle_start_epoch(self, from: Pid, cid: CorrelationId, output: &mut Vec<Output>) -> (r: VrState)
        ensures
            r@ == StateView::Backup(self@),
            outs_view(final(output)@) == outs_view(old(output)@).push(OutputView::EpochStarted { to: from, cid }),
    {
        emit(output, Output::EpochStarted { to: from, cid });
        VrState::Backup(self)
    }

    /// Reacts to one message delivered at time `now`: returns the next role
    /// and appends the requested effects to `output`, as `step` describes.
    pub fn handle(self, msg: VrMsg, from: Pid, cid: CorrelationId, now: u64, output: &mut Vec<Output>) -> (r: VrState)
        requires
            self@.wf(),
            msg.wf(),
            msg is Tick ==> self.ctx.view < u64::MAX,
            self@.ctx.epochs_ordered(),
            orders_epochs(self@, msg),
        ensures
            r@ == step(self@, msg, from, cid, now).0,
            outs_view(final(output)@) == outs_view(old(output)@) + step(self@, msg, from, cid, now).1,
            r@.wf(),
            r@.ctx().epoch >= self.ctx.epoch,
            r@.ctx().epoch == self.ctx.epoch ==> r@.ctx().view >= self.ctx.view,
            r@.ctx().epochs_ordered(),
    {
        proof {
            lemma_step_keeps_order(self@, msg, from, cid, now);
        }
        let ghost out0 = outs_view(output@);
        match msg {
            VrMsg::Prepare(m) => self.handle_prepare(m, cid, now, output),
            VrMsg::Commit(m) => self.handle_commit(m, now, output),
            VrMsg::StartViewChange(m) => {
                assert(outs_view(output@) =~= out0 + Seq::<OutputView>::empty());
                self.handle_start_view_change(m, from)
            },
            VrMsg::DoViewChange(m) => {
                assert(outs_view(output@) =~= out0 + Seq::<OutputView>::empty());
                self.handle_do_view_change(m, from)
            },
            VrMsg::StartView(m) => self.handle_start_view(m, now, output),
            VrMsg::Tick => self.handle_tick(cid, now, output),
            VrMsg::GetState(m) => self.handle_get_state(m, from, cid, output),
            VrMsg::Recovery(m) => {
                let r = self.handle_recovery(m, from, cid, output);
                assert(outs_view(output@) =~= out0 + seq![OutputView::RecoveryResponse { to: from, nonce: m.nonce, cid }]);
                r
            },
            VrMsg::StartEpoch(_) => {
                let r = self.handle_start_epoch(from, cid, output);
                assert(outs_view(output@) =~= out0 + seq![OutputView::EpochStarted { to: from, cid }]);
                r
            },
            VrMsg::PrepareOk(_) => {
                assert(outs_view(output@) =~= out0 + Seq::<OutputView>::empty());
                VrState::Backup(self)
            },
        }
    }

    /// Reacts to one message at the time the monotonic clock reads now: the
    /// outcome is what `handle` gives at some reading of the clock.
    pub fn handle_now(self, msg: VrMsg, from: Pid, cid: CorrelationId, output: &mut Vec<Output>) -> (r: VrState)
        requires
            self@.wf(),
            msg.wf(),
            msg is Tick ==> self.ctx.view < u64::MAX,
            self@.ctx.epochs_ordered(),
            orders_epochs(self@, msg),
        ensures
            r@.ctx().epoch >= self.ctx.epoch,
            r@.ctx().epoch == self.ctx.epoch ==> r@.ctx().view >= self.ctx.view,
            r@.ctx().epochs_ordered(),
            exists|now: u64|
                r@ == (#[trigger] step(self@, msg, from, cid, now)).0 && outs_view(final(output)@) == outs_view(
                    old(output)@,
                ) + step(self@, msg, from, cid, now).1,
            r@.wf(),
    {
        let now = monotonic_now_ns();
        let ghost b0 = self@;
        let ghost m0 = msg;
        let r = self.handle(msg, from, cid, now, output);
        assert(r@ == step(b0, m0, from, cid, now).0);
        r
    }
}

} // verus!
