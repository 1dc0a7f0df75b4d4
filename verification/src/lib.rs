//! An in-memory cache that speaks a line-oriented text protocol: the decoder
//! that frames the bytes of a connection into commands, the store that the
//! commands work on, and the replies of a session. Every function is verified
//! against its contract; reading from and writing to sockets is left to the
//! caller.

pub mod command;
pub mod decoder;
pub mod header;
pub mod laws;
pub mod number;
pub mod session;
pub mod store;
pub mod text;
