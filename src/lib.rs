//! Lifecycle and counter-management contracts for streaming hash/MAC
//! primitives and counter-mode stream ciphers, with conformance suites that
//! drive a primitive through legal and illegal call sequences.
//!
//! - `lifecycle`: the abstract state machine of a streaming context.
//! - `stream_interface`: the streaming-context contract and its suite.
//! - `streamcipher_interface`: the counter-mode contract, block-counter
//!   arithmetic, and its suite.
//! - `checksum_context`, `counter_xor_cipher`: small non-cryptographic
//!   primitives proved to meet the two contracts.
pub mod checksum_context;
pub mod counter_xor_cipher;
pub mod errors;
pub mod lifecycle;
pub mod stream_interface;
pub mod streamcipher_interface;
