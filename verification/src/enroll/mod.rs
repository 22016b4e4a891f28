pub mod crypto;
pub mod handshake;
pub mod http;
