//! A host/plugin device-control core: a registry of schema-typed device
//! members, a binary wire codec for attribute and action payloads, the
//! request/response message catalog with its envelope codec, the plugin-side
//! dispatch that serves the protocol against a device, and the host-side
//! handshake and call-slot bookkeeping.

pub mod codec;
pub mod config;
pub mod device;
pub mod plugin;
pub mod schema;
pub mod time;
pub mod value;
