//! A minimal message-queue broker: the binary message codec, the FIFO queue
//! engine, and the decision logic of the connection handler and of the
//! server's lifecycle, each with a machine-checked contract.

pub mod buffer;
pub mod client;
pub mod endian;
pub mod enums;
pub mod frame;
pub mod server;
pub mod structs;
