//! Device history synchronisation: an append-only packet log, a replay
//! driver over it, and the connection state machines that feed it.
pub mod store;
pub mod processor;
pub mod replay;
pub mod discovery;
pub mod terminate;
pub mod session;
