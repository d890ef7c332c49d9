//! The core of a minimal paste service.
//!
//! A client hands in a blob of bytes and gets back a short, human-readable
//! identifier; whoever holds the identifier can fetch the bytes again. This
//! crate holds the rules of that service: how the configuration is
//! completed, which identifiers may name a paste, how a free identifier is
//! claimed without ever overwriting a paste, and what a lookup answers.
//! Each function states what it returns and is proved to do so; the two calls
//! into other crates, for drawing a phrase and for measuring the secret
//! token, are believed to do what their contracts say. Talking to the
//! network and the disk is left to the program built around this crate.

pub mod config;
pub mod laws;
pub mod memory;
pub mod name;
pub mod put;
pub mod request;
pub mod seqs;
pub mod store;
