//! A verified lobby server core: session bookkeeping, room directory,
//! client message decoding and the per-connection protocol machine.
pub mod channels;
pub mod decode;
pub mod message;
pub mod registry;
pub mod resource_manager;
pub mod session;
pub mod text;
pub mod types;
pub mod util;
