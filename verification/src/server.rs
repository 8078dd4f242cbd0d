//! The server engine: the shared queue, the decisions of a connection's
//! handler, and the server's lifecycle with its registry of connections.

pub mod handler;
pub mod lifecycle;
pub mod queue;
pub mod registry;
