use vstd::prelude::*;
use crate::ids::Pid;
use crate::msg::{copy_pids, epochs_ascend, log_wf, ClientOp};

verus! {

/// A membership of the group, tagged with the epoch and the op that began it.
#[derive(Debug)]
pub struct VersionedReplicas {
    pub epoch: u64,
    pub op: u64,
    pub replicas: Vec<Pid>,
}

pub struct ConfigView {
    pub epoch: u64,
    pub op: u64,
    pub replicas: Seq<Pid>,
}

impl View for VersionedReplicas {
    type V = ConfigView;

    open spec fn view(&self) -> ConfigView {
        ConfigView { epoch: self.epoch, op: self.op, replicas: self.replicas@ }
    }
}

/// The protocol state of one replica, owned by whichever role it is in.
/// Times are readings of a monotonic clock, in nanoseconds.
#[derive(Debug)]
pub struct VrCtx {
    pub pid: Pid,
    pub epoch: u64,
    pub view: u64,
    pub op: u64,
    pub commit_num: u64,
    pub log: Vec<ClientOp>,
    pub last_received_time: u64,
    pub last_normal_view: u64,
    pub old_config: VersionedReplicas,
    pub new_config: VersionedReplicas,
    pub idle_timeout: u64,
    pub reconfiguration_in_progress: bool,
}

pub struct CtxView {
    pub pid: Pid,
    pub epoch: u64,
    pub view: u64,
    pub op: u64,
    pub commit_num: u64,
    pub log: Seq<ClientOp>,
    pub last_received_time: u64,
    pub last_normal_view: u64,
    pub old_config: ConfigView,
    pub new_config: ConfigView,
    pub idle_timeout: u64,
    pub reconfiguration_in_progress: bool,
}

impl View for VrCtx {
    type V = CtxView;

    open spec fn view(&self) -> CtxView {
        CtxView {
            pid: self.pid,
            epoch: self.epoch,
            view: self.view,
            op: self.op,
            commit_num: self.commit_num,
            log: self.log@,
            last_received_time: self.last_received_time,
            last_normal_view: self.last_normal_view,
            old_config: self.old_config@,
            new_config: self.new_config@,
            idle_timeout: self.idle_timeout,
            reconfiguration_in_progress: self.reconfiguration_in_progress,
        }
    }
}

impl CtxView {
    /// Committed ops were prepared, prepared ops are in the log, and the
    /// current membership is not empty.
    pub open spec fn wf(self) -> bool {
        &&& self.commit_num <= self.op
        &&& self.op <= self.log.len()
        &&& self.new_config.replicas.len() > 0
        &&& log_wf(self.log)
    }

    /// The reconfigurations still to commit never take the replica to an
    /// earlier epoch.
    pub open spec fn epochs_ordered(self) -> bool {
        epochs_ascend(self.log, self.commit_num as int, self.epoch)
    }

    /// The primary of the current view: views rotate through the membership.
    pub open spec fn primary(self) -> Pid {
        self.new_config.replicas[(self.view as int) % (self.new_config.replicas.len() as int)]
    }

    /// This replica is not part of the current membership.
    pub open spec fn is_leaving(self) -> bool {
        !self.new_config.replicas.contains(self.pid)
    }

    /// The primary has been silent for at least the idle timeout.
    pub open spec fn timed_out(self, now: u64) -> bool {
        now >= self.last_received_time && now - self.last_received_time >= self.idle_timeout
    }

    /// Adopts the membership of a committed reconfiguration at log position `op`.
    pub open spec fn enter_epoch(self, epoch: u64, op: u64, replicas: Seq<Pid>) -> CtxView {
        CtxView {
            epoch,
            old_config: self.new_config,
            new_config: ConfigView { epoch, op, replicas },
            ..self
        }
    }
}

impl VrCtx {
    pub open spec fn wf(&self) -> bool {
        self@.wf()
    }

    pub fn compute_primary(&self) -> (r: Pid)
        requires
            self.wf(),
        ensures
            r == self@.primary(),
    {
        let n = self.new_config.replicas.len();
        let idx = (self.view % (n as u64)) as usize;
        self.new_config.replicas[idx]
    }

    pub fn is_leaving(&self) -> (r: bool)
        ensures
            r == self@.is_leaving(),
    {
        let mut i: usize = 0;
        while i < self.new_config.replicas.len()
            invariant
                i <= self.new_config.replicas@.len(),
                forall|j: int| 0 <= j < i ==> self.new_config.replicas@[j] != self.pid,
            decreases self.new_config.replicas@.len() - i,
        {
            if self.new_config.replicas[i] == self.pid {
                assert(self.new_config.replicas@[i as int] == self.pid);
                return false;
            }
            i = i + 1;
        }
        true
    }

    pub fn is_primary(&self) -> (r: bool)
        requires
            self.wf(),
        ensures
            r == (self@.primary() == self.pid),
    {
        self.compute_primary() == self.pid
    }

    pub fn idle_timeout_elapsed(&self, now: u64) -> (r: bool)
        ensures
            r == self@.timed_out(now),
    {
        now >= self.last_received_time && now - self.last_received_time >= self.idle_timeout
    }

    /// Moves the current membership to `old_config` and installs the one that
    /// a reconfiguration at log position `op` names.
    pub fn update_for_new_epoch(&mut self, epoch: u64, op: u64, replicas: &Vec<Pid>)
        ensures
            final(self)@ == old(self)@.enter_epoch(epoch, op, replicas@),
    {
        let mut cfg = VersionedReplicas { epoch, op, replicas: copy_pids(replicas) };
        std::mem::swap(&mut self.new_config, &mut cfg);
        self.old_config = cfg;
        self.epoch = epoch;
    }
}

} // verus!
