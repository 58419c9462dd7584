//! A verified library for reading a Slack workspace's message history.
//!
//! The library recovers a session cookie from the bytes the desktop client
//! stores on disk, builds authenticated API requests, drives the paginated
//! history fetch as an explicit state machine, resolves user and channel
//! identifiers through a cache with deterministic fallback names, and
//! reconciles the flat message stream into reply threads.

pub mod auth;
pub mod cache;
pub mod cli;
pub mod decryptor;
pub mod errors;
pub mod model;
pub mod pagination;
pub mod slack;
pub mod sort;
pub mod text;
pub mod threads;
pub mod ts;

