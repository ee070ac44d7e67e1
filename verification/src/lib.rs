//! Core of a harness that checks interchangeable device kernels against a
//! host reference: workload shapes, kernel selection, call marshalling, an
//! exact reference engine, result comparison and timing statistics.

pub mod bench;
pub mod compare;
pub mod driver;
pub mod error;
pub mod generator;
pub mod marshal;
pub mod optimizer;
pub mod reference;
pub mod registry;
pub mod shape;
pub mod stats;
