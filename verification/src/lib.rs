//! A fixed-size worker pool as a sequential decision core.
//!
//! The pool owns an unbounded first-in, first-out job queue and a fixed set
//! of workers. Every decision the pool takes (whether a submission is
//! accepted, which job a polling worker receives, when a worker stops) is a
//! function of the pool's current state and of one event. The embedding
//! program supplies the threads, the lock that serialises the events and the
//! network endpoint; this crate supplies the state and the rules, and proves
//! what they guarantee.
pub mod endpoint;
pub mod job_queue;
pub mod laws;
pub mod model;
pub mod node;
pub mod pool;
pub mod preservation;
pub mod tally;
pub mod worker;

pub use job_queue::{JobQueue, JobQueueView, QueueClosed, Received};
pub use model::{Dispatch, Event, Execution, PoolView};
pub use node::Node;
pub use pool::{valid_pool_size, ThreadPool};
pub use worker::{Worker, WorkerState, WorkerView};
