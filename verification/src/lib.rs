//! A bounded-concurrency fleet scanner core: given the pods of a set of
//! cluster namespaces, it decides which pods to probe for a runtime version,
//! interprets each probe's outcome, and folds the outcomes into per-namespace
//! and global statistics, which it can render as a table or a delimited
//! export. The surrounding process work (listing pods, running the probe
//! command, printing, writing files) is left to the calling program; this
//! crate holds the decisions and the bookkeeping, each with a proved
//! contract.

pub mod config;
pub mod pool;
pub mod probe;
pub mod report;
pub mod scanner;
pub mod types;
pub mod version;
