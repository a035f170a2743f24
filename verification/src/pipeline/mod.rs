//! The pipeline: source, processor and sink stages and what passes between them.
pub mod config;
pub mod control;
pub mod direct_run;
pub mod failures;
pub mod metrics;
pub mod processor_run;
pub mod processor_task;
pub mod recovery;
pub mod ring;
pub mod sink_run;
pub mod sink_task;
pub mod source_run;
pub mod source_task;
pub mod whole_run;
