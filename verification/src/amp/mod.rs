//! Agent-session bookkeeping: persisted state, run identifiers and logs,
//! lifecycle reconciliation, per-thread output and thread summaries.

pub mod output;
pub mod reconcile;
pub mod run;
pub mod session;
pub mod state;
pub mod thread;
