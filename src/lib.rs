//! The backup role of a viewstamped-replication replica: a verified state
//! machine from (role, message) to (next role, outbound effects).
pub mod ids;
pub mod msg;
pub mod ctx;
pub mod fresh;
pub mod state;
pub mod model;
pub mod backup;
pub mod laws;
mod clock;
