//! Codec for the `Rebased` log record of a supply-rebasing token contract.
//!
//! A rebase notification travels as a log record: an emitting address,
//! a list of fixed-width topics (the event signature hash and the indexed
//! epoch), and a data segment of 256-bit words holding the remaining
//! numeric fields. This crate decodes such a record into a typed event,
//! encodes a typed event back into the identical byte layout, and renders
//! an event as a diagnostic string.

pub mod codec;
pub mod hash;
pub mod render;
pub mod schema;
pub mod words;

pub use codec::CodecError;
pub use codec::EthRebasedEvent;
