//! Client for a JSON-RPC tool-invocation protocol carried over a
//! server-sent-events (SSE) stream.
//!
//! The crate verifies the streaming transport core: the wire-frame parser
//! with partial-frame accumulation, endpoint URL resolution, the connection
//! handshake state machine, the reconnect-capable event pump's control
//! logic, and the request/response layer above them.  Network and channel
//! plumbing live outside the library and drive these functions with plain
//! values.

pub mod client;
pub mod encoding;
pub mod error;
pub mod json_rpc;
pub mod types;
