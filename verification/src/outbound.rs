//! The upstream service and how its answers are read.
pub mod official;
