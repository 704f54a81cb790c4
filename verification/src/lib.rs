//! A consumer-driven contract-testing core: a registry that starts, queries
//! and stops ephemeral mock HTTP servers, each serving the expected
//! interactions of one contract and recording how actual traffic compared
//! with them.
//!
//! The registry and each server's lifecycle are verified. The asynchronous
//! runtime, sockets and TLS plumbing live outside the library and drive it
//! through the event parameters of its operations.

pub mod contract;
pub mod mock_server;
pub mod server_manager;
pub mod http_utils;
pub mod builders;
pub mod json;
pub mod wire;
