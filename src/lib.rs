//! The protocol core of a plugin host: the envelope format and its codec, the state that the
//! host keeps for each plugin process (handshake, pending calls, subscriptions, stored values,
//! timer ticks), the host's service handlers, and discovery of plugins from their manifests.
//! The crate decides what to write, what to deliver and what to record; spawning processes,
//! moving bytes over pipes, running tasks and touching files is left to its caller.

use vstd::prelude::*;

pub mod text;
pub mod json;
pub mod envelope;
pub mod codec;
pub mod table;
pub mod events;
pub mod log;
pub mod timer;
pub mod subscriptions;
pub mod storage;
pub mod dispatch;
pub mod manifest;
pub mod session;
pub mod manager;
pub mod cli;
pub mod chat;
