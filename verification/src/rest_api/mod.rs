//! The management API: what each request does and what it is answered.
pub mod access;
pub mod cluster;
pub mod delivery;
pub mod pipelines;
pub mod processors;
pub mod reply;
