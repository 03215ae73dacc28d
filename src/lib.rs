//! Orchestration of batched beam-response computations: de-duplication of
//! tile configurations and frequencies, the layout of result tensors, the
//! post-processing that reorders Jones matrices, and the status codes and
//! error slot of the foreign-call boundary.

pub mod boundary;
pub mod dedup;
pub mod jones;
pub mod plan;
