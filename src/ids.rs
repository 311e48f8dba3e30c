use vstd::prelude::*;

verus! {

/// The address of a process taking part in replication.
#[derive(Clone, Copy, Debug, PartialEq, Eq, Structural)]
pub struct Pid {
    pub id: u64,
}

/// Matches a response with the request that caused it.
#[derive(Clone, Copy, Debug, PartialEq, Eq, Structural)]
pub struct CorrelationId {
    pub pid: Pid,
    pub request: u64,
}

impl Pid {
    pub fn new(id: u64) -> (r: Pid)
        ensures
            r.id == id,
    {
        Pid { id }
    }
}

} // verus!
