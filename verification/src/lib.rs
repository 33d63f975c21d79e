//! Local control-plane library: a line-delimited JSON wire protocol between a
//! desktop assistant and its command-line companion, a timeout-bounded process
//! runner with heuristic failure classification, and a rotating audit log.
//!
//! The library holds the protocol grammar, the dispatch rules, the runner's
//! decision logic and the audit-log state machine, each with a verified
//! contract. Sockets, processes and files live outside the library; callers
//! hand in plain values (lines, poll results, clock readings) and take plain
//! values back.

pub mod appinfo;
pub mod audit;
pub mod classify;
pub mod client;
pub mod gitctx;
pub mod json;
pub mod project;
pub mod runner;
pub mod server;
pub mod shortcuts;
pub mod store;
pub mod text;
pub mod wire;

use vstd::prelude::*;

verus! {

} // verus!
