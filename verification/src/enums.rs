//! The closed vocabularies of the protocol: status codes, element types and errors.

pub mod code;
pub mod errors;
pub mod types;
