//! The message and the helpers of its codec.

pub mod helper;
pub mod message;
