//! A verified call-bridge: a strongly typed asset interface (mint, burn,
//! transfer, ownership and attribute queries on non-fungible items) whose
//! every operation is delegated to an opaque external executor reachable only
//! through a binary call protocol.
//!
//! The crate is split along the protocol boundary:
//! - [`codec`] builds operation payloads and parses response buffers;
//! - [`bridge`] assembles the one synchronous executor invocation and
//!   normalizes its binary-or-failure outcome;
//! - [`adapter`] exposes the capability set, turning typed requests into
//!   calls and outcomes back into typed, fallible results.
//!
//! The executor itself lives outside this crate: callers hand each assembled
//! [`bridge::CallRequest`] to their runtime and feed the reported
//! [`bridge::CallOutcome`] back into the matching result function.

pub mod adapter;
pub mod bridge;
pub mod codec;
pub mod types;
