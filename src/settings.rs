//! Server settings: where to listen, and how large a WebSocket payload may be.
//! Loading them from a file and the environment is left to the program.

use vstd::prelude::*;

verus! {

/// Default maximum payload size: one megabyte, 10^6 bytes.
pub const DEFAULT_MAX_PAYLOAD_SIZE: u64 = 1000000;

/// Default listening port.
pub const DEFAULT_PORT: u16 = 8888;

#[derive(Debug, Clone)]
pub struct Http {
    pub addr: String,
    pub port: u16,
}

impl Http {
    pub fn addr(&self) -> (r: &String)
        ensures
            r == &self.addr,
    {
        &self.addr
    }

    pub fn port(&self) -> (r: u16)
        ensures
            r == self.port,
    {
        self.port
    }
}

impl Default for Http {
    /// Listen on 127.0.0.1:8888.
    fn default() -> (r: Http)
        ensures
            r.addr@ == "127.0.0.1"@,
            r.port == DEFAULT_PORT,
    {
        Http { addr: "127.0.0.1".to_owned(), port: DEFAULT_PORT }
    }
}

#[derive(Debug, Clone, Copy)]
pub struct WebSocket {
    /// In bytes.
    pub max_payload_size: u64,
}

impl WebSocket {
    pub fn max_payload_size(&self) -> (r: u64)
        ensures
            r == self.max_payload_size,
    {
        self.max_payload_size
    }
}

pub fn default_max_payload_size() -> (r: u64)
    ensures
        r == DEFAULT_MAX_PAYLOAD_SIZE,
{
    DEFAULT_MAX_PAYLOAD_SIZE
}

impl Default for WebSocket {
    fn default() -> (r: WebSocket)
        ensures
            r.max_payload_size == DEFAULT_MAX_PAYLOAD_SIZE,
    {
        WebSocket { max_payload_size: default_max_payload_size() }
    }
}

#[derive(Debug, Clone)]
pub struct Settings {
    pub http: Http,
    pub ws: WebSocket,
}

impl Settings {
    pub fn http(&self) -> (r: &Http)
        ensures
            r == &self.http,
    {
        &self.http
    }

    pub fn ws(&self) -> (r: &WebSocket)
        ensures
            r == &self.ws,
    {
        &self.ws
    }
}

impl Default for Settings {
    fn default() -> (r: Settings)
        ensures
            r.http.addr@ == "127.0.0.1"@,
            r.http.port == DEFAULT_PORT,
            r.ws.max_payload_size == DEFAULT_MAX_PAYLOAD_SIZE,
    {
        Settings { http: Http::default(), ws: WebSocket::default() }
    }
}

} // verus!
