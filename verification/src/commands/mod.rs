//! The commands of the client.

pub mod device;
pub mod keys;
pub mod kv;
pub mod session;
pub mod session_request;
