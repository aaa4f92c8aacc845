//! Generator core for a VPP binary-API client binding.
//!
//! The crate reads an in-memory model of VPP API schema files (the JSON
//! parsing itself lives outside the verified core), resolves type and import
//! relationships, and emits one generated source module per schema file plus
//! an aggregating package skeleton.  It also carries the small byte-framing
//! helpers that the message transport shares with the generated code.

pub mod frame;
pub mod schema;
pub mod assembler;
pub mod emitter;
pub mod loader;
pub mod mapper;
pub mod message;
pub mod strutil;
pub mod util;

pub use frame::split_into_id_and_msg;
