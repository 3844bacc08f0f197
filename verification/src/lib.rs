//! The verified core of a Kubernetes desktop backend.

pub mod error;
pub mod exec_io;
pub mod exec_message;
pub mod exec_output;
pub mod exec_queue;
pub mod exec_session;
pub mod json;
pub mod listing;
pub mod lists;
pub mod log_stream;
pub mod logs;
pub mod metrics;
pub mod quantity;
pub mod registry;
pub mod resource_metrics;
pub mod text;
pub mod utf8;
pub mod validation;
pub mod workload;
