//! Orchestration logic for an instrumented-coverage run: selecting stale
//! profile files for cleanup, forwarding test arguments, naming raw profile
//! outputs, assembling report-generator invocations, sequencing the pipeline,
//! and colorizing percentage values in the streamed report.

pub mod args;
pub mod colorize;
pub mod locate;
pub mod pipeline;
pub mod sanitize;
pub mod text;
pub mod tier;
