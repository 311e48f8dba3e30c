use vstd::prelude::*;

verus! {

/// How recent a message's round must be for a handler to act on it.
#[derive(Clone, Copy, Debug, PartialEq, Eq, Structural)]
pub enum Freshness {
    /// Same epoch and same view: traffic from the current primary or a peer in
    /// the same round.
    SameView,
    /// Same epoch and a later view: a proposal to change views.
    LaterView,
    /// A later epoch, or the same epoch and a later view: an announced view.
    LaterRound,
}

pub open spec fn fresh(local_epoch: u64, local_view: u64, msg_epoch: u64, msg_view: u64, kind: Freshness) -> bool {
    match kind {
        Freshness::SameView => msg_epoch == local_epoch && msg_view == local_view,
        Freshness::LaterView => msg_epoch == local_epoch && msg_view > local_view,
        Freshness::LaterRound => msg_epoch > local_epoch || (msg_epoch == local_epoch && msg_view > local_view),
    }
}

/// Decides whether a message of the given round is acted on or ignored.
pub fn is_fresh(local_epoch: u64, local_view: u64, msg_epoch: u64, msg_view: u64, kind: Freshness) -> (r: bool)
    ensures
        r == fresh(local_epoch, local_view, msg_epoch, msg_view, kind),
{
    match kind {
        Freshness::SameView => msg_epoch == local_epoch && msg_view == local_view,
        Freshness::LaterView => msg_epoch == local_epoch && msg_view > local_view,
        Freshness::LaterRound => msg_epoch > local_epoch || (msg_epoch == local_epoch && msg_view > local_view),
    }
}

} // verus!
