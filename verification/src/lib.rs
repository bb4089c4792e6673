//! Process manager for local "MCP" tool servers: child processes that speak a
//! JSON-RPC-like protocol over standard input/output.
//!
//! The crate holds the decision logic of the manager, fully verified:
//! * a registry mapping server identifiers to process handle tokens,
//! * resolution of the `npx` package runner to a concrete path,
//! * construction of the command to spawn (direct or shell fallback),
//! * framing of responses (single JSON line or event-stream block),
//! * the exact confirmation and error strings surfaced to callers.
//!
//! Everything that touches the operating system (spawning, pipes, probing the
//! file system, environment variables) lives outside this crate; it hands the
//! library plain values and performs the actions the library decides on.

pub mod device;
pub mod framing;
pub mod manager;
pub mod registry;
pub mod resolver;
pub mod text;
