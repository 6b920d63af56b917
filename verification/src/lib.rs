//! A queue-driven engine that derives graph paths from a partitioned graph and
//! reconciles the partial results of independent workers by pairwise merge.
//!
//! Entities are content-addressed: every stored value is keyed by the digest of
//! its canonical encoding, so saving is idempotent and two databases merge by
//! plain map union.
pub mod adjacency;
pub mod canon;
pub mod cycle;
pub mod database;
pub mod digest;
pub mod entity;
pub mod laws;
pub mod merge;
pub mod pass;
pub mod queue;
pub mod registry;
pub mod route;
pub mod stitch;
pub mod table;
pub mod worker;

pub use cycle::{
    run_cycle, Cycle, DataCycle, EdgeCycle, Ending, GraphPathCycle, InputFileCycle, NodeCycle,
    Turn,
};
pub use database::Database;
pub use entity::{Edge, Entity, EntityKind, GraphPath, InputFile, Node};
pub use merge::{classify, reconcile, Merged, Resolution};
pub use pass::{derive_from, drain, run_job, Pass};
pub use queue::LocalQueue;
pub use registry::{Effect, Journal, MergeRequest, Registry};
pub use route::Route;
pub use worker::{
    db_location, in_cleanup, in_storage, in_transport, merge_ready, queue_location, run_pass,
    run_worker, try_merge, WorkerError,
};
