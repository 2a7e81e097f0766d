//! A small HTTP/1.1 server library with WebSocket upgrade support: an
//! incremental request reader, the opening handshake and the frame codec.

pub mod bytes;
pub mod common;
pub mod frame;
pub mod handler;
pub mod header_map;
pub mod headers;
pub mod reader;
pub mod request;
pub mod response;
pub mod settings;
pub mod websocket;
