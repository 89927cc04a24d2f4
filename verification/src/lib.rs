//! Verified core of a finished-job reporter for a batch cluster.
//!
//! The library turns the raw text of a job-accounting query into typed job
//! records, classifies job identifiers, filters and groups the records for
//! display, renders audit-log lines, and maintains the watermark timestamp
//! that separates already-reported jobs from new ones.

pub mod audit;
pub mod classify;
pub mod datetime;
pub mod display;
pub mod extract;
pub mod job;
pub mod numbers;
pub mod pipeline;
pub mod text;
pub mod timestamp;
pub mod tokenize;
pub mod watermark;

pub use classify::IdClass;
pub use display::RenderedLine;
pub use job::Job;
pub use job::ParseError;
pub use pipeline::RunOutput;
pub use timestamp::Timestamp;
pub use watermark::SessionStart;
