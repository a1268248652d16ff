//! The reconciliation engine of cloudhome: the manifest model, the content
//! hasher, the classifier that compares a local manifest with a remote one,
//! the reconciler and the decisions of the poll loop.
//!
//! Nothing in this library touches the disk or the network. The caller reads
//! and fetches, hands over what came back, and carries out the actions that
//! the library decides on.

pub mod cloud;
pub mod codec;
pub mod config;
pub mod error;
pub mod json;
pub mod laws;
pub mod local;
pub mod manifest;
pub mod remote;
pub mod text;
