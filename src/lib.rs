//! Tuner sharing, filter pipelines and background scan jobs of a broadcast
//! television tuner server, with their configuration.
pub mod config;
pub mod epg;
pub mod error;
pub mod fanout;
pub mod models;
pub mod pipeline;
pub mod service_scanner;
pub mod teardown;
pub mod tuner;
