use vstd::prelude::*;
use crate::backup::{Backup, BackupView};
use crate::ctx::{CtxView, VrCtx};
use crate::ids::Pid;
use crate::msg::{DoViewChange, StartViewChange};

verus! {

/// The role a replica is in. Each role owns the replica's context; roles other
/// than `Backup` are continued by their own modules.
#[derive(Debug)]
pub enum VrState {
    Backup(Backup),
    Primary(VrCtx),
    /// Fetching missing log entries from a peer in the same view.
    StateTransfer(VrCtx),
    /// This replica suspected the primary and proposed the view in its context.
    StartViewChange(VrCtx),
    /// A peer proposed a later view; the view-change module takes it from here.
    JoinViewChange(VrCtx, Pid, StartViewChange),
    /// A peer sent its state for a later view; the view-change module takes it from here.
    DoViewChange(VrCtx, Pid, DoViewChange),
    /// This replica is not in the new membership and shuts down.
    Leaving(VrCtx),
}

pub enum StateView {
    Backup(BackupView),
    Primary(CtxView),
    StateTransfer(CtxView),
    StartViewChange(CtxView),
    JoinViewChange(CtxView, Pid, StartViewChange),
    DoViewChange(CtxView, Pid, DoViewChange),
    Leaving(CtxView),
}

impl View for VrState {
    type V = StateView;

    open spec fn view(&self) -> StateView {
        match self {
            VrState::Backup(b) => StateView::Backup(b@),
            VrState::Primary(c) => StateView::Primary(c@),
            VrState::StateTransfer(c) => StateView::StateTransfer(c@),
            VrState::StartViewChange(c) => StateView::StartViewChange(c@),
            VrState::JoinViewChange(c, p, m) => StateView::JoinViewChange(c@, *p, *m),
            VrState::DoViewChange(c, p, m) => StateView::DoViewChange(c@, *p, *m),
            VrState::Leaving(c) => StateView::Leaving(c@),
        }
    }
}

impl StateView {
    /// The context is consistent; a backup also knows its primary.
    pub open spec fn wf(self) -> bool {
        match self {
            StateView::Backup(b) => b.wf(),
            _ => self.ctx().wf(),
        }
    }

    /// The context that the role holds.
    pub open spec fn ctx(self) -> CtxView {
        match self {
            StateView::Backup(b) => b.ctx,
            StateView::Primary(c) => c,
            StateView::StateTransfer(c) => c,
            StateView::StartViewChange(c) => c,
            StateView::JoinViewChange(c, _, _) => c,
            StateView::DoViewChange(c, _, _) => c,
            StateView::Leaving(c) => c,
        }
    }
}

} // verus!
