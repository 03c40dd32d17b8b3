//! Decision core of a chat moderation assistant: how inbound events are
//! routed, what the off-topic redirect handler does at each step, which
//! texts and keyboards it sends, and how the update transport is chosen.
//!
//! Nothing here performs I/O. A caller carries out the requests that the
//! state machines hand out and reports back how each call ended.

pub mod client;
pub mod dispatch;
pub mod functions;
pub mod keyboard;
pub mod markup;
pub mod model;
pub mod transport;
