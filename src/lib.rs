//! The protocol core of a thumbnail service: a length announced as decimal
//! text on one connection, then a payload of exactly that many bytes on a
//! second, which is transformed and sent back on the same connection.

pub mod text;
pub mod length;
pub mod session;
pub mod config;
