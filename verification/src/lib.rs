//! The verified core of a TLS-fronted SOCKS5 relay.
//!
//! A client takes SOCKS5 connections and carries them, over two TLS streams that
//! begin like HTTP, to a server that makes the connections. This crate holds what
//! both sides decide and every byte they put on the streams; whoever runs it does
//! the reading, writing and waiting.

pub mod client;
pub mod config;
pub mod gate;
pub mod instance;
pub mod laws;
pub mod message;
pub mod pem;
pub mod server;
pub mod stream;
pub mod table;
pub mod text;
pub mod wire;
