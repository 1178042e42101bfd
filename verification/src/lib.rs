//! Adapter between a host-defined, vendor-agnostic chat model and one
//! upstream vendor's streaming chat API.
//!
//! The crate has two independent components:
//! - the request adapter ([`adapter`]): a pure, synchronous translation of a
//!   canonical [`model::ChatRequest`] into the vendor's wire request shape;
//! - the stream normalizer ([`normalizer`]): a stateful, per-event translation
//!   of the vendor's fragmented response deltas into canonical completion
//!   events, including incremental reassembly of tool-call arguments.

pub mod adapter;
pub mod json;
pub mod model;
pub mod normalizer;
pub mod vendor;
