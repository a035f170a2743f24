//! Rules and state machines of a stream-processing engine.
//!
//! Everything here is synchronous and free of I/O: the runtime around the library polls
//! sources, drives sinks, keeps time and serves requests, hands plain values in and acts on
//! the plain values that come back.

pub mod definition;
pub mod digest;
pub mod error;
pub mod ids;
pub mod metrics_server;
pub mod name_map;
pub mod native_loader;
pub mod partition_install;
pub mod partition_map;
pub mod partition_ownership;
pub mod pipeline;
pub mod pipeline_manager;
pub mod pipeline_supervisor;
pub mod poh_probe;
pub mod processor;
pub mod processor_auth;
pub mod registry;
pub mod rest_api;
pub mod retention_probe;
pub mod retry;
pub mod shutdown;
pub mod subject_export;
pub mod text;
pub mod time;
pub mod types;
