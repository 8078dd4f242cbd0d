//! What the message codec is built from: the layout of numeric elements, the
//! NUL-terminated runs of string payloads, and the header and body checks.

pub mod elements;
pub mod message;
pub mod text;
