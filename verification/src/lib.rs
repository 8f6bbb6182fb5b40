//! A static file server's request handling: resolving request paths, listing
//! directories, choosing content types and assembling responses.
//!
//! The library does no I/O. Its caller reads the file system and the network
//! and hands over plain values; what the library decides about them is stated
//! in the contracts of its functions.

pub mod paths;
pub mod error;
pub mod resolve;
pub mod content_type;
pub mod listing;
pub mod response;
pub mod server;
