//! Session tracking: the domain model, observations from each source, their
//! correlation and the timeline built from them.

pub mod archive;
pub mod domain;
pub mod heuristic;
pub mod materialize;
pub mod observation;
pub mod priority;
pub mod reconcile;
pub mod source;
pub mod timeline;
