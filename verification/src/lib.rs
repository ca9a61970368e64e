//! An in-memory cache of ephemeral game-lobby records fed by a websocket
//! event stream, together with the pieces around it: a decoder for the two
//! wire shapes the feed can send, a freshness (TTL) sweep, a change
//! notification bus, a bounded per-key watch admission table, and the
//! decision logic of the connection supervisor and of a consumer's watch
//! loop.

pub mod bus;
pub mod bytes;
pub mod cache;
pub mod decode;
pub mod encode;
pub mod errors;
pub mod json;
pub mod model;
pub mod admission;
pub mod parse;
pub mod store;
pub mod supervisor;
pub mod watch;
