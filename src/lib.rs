//! Best single acquire/dispose window over a timestamped value series.
//!
//! Three solvers share one data model (`series`): an exhaustive search that is
//! optimal, a sort-and-repair search that is fast but only approximate, and a
//! single greedy pass over array order. `generator` builds synthetic series.
pub mod series;
pub mod exhaustive;
pub mod generator;
pub mod greedy;
pub mod laws;
pub mod sort_repair;
