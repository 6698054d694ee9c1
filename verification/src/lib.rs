//! Execution core of a distributed data-processing engine.
//!
//! A pipeline description draws tasks, one per partition. A task, once turned
//! into its running form, offers its items to a sink. On a worker the sink
//! feeds a per-task reducer; the coordinator folds the per-task outputs with a
//! cross-task reducer into the collection the caller asked for.
//!
//! Every receiver of items (sink or reducer) is specified as a state machine
//! over a mathematical state, so that what a run leaves behind can be stated
//! exactly.
pub mod data;
pub mod dist_iter;
pub mod json;
pub mod sink;
pub mod util;
