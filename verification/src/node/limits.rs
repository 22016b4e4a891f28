//! Fabric ingress resource limits.
use vstd::prelude::*;

verus! {

/// Max JSON body size for POST routes (`/v1/chat`, `/v1/revoke`, …).
pub const MAX_FABRIC_BODY_BYTES: usize = 8388608;

/// Max concurrent in-flight fabric connections per worker listener.
pub const MAX_FABRIC_CONNECTIONS: usize = 64;

/// One source cannot occupy the whole listener. Hosts behind a NAT share this cap.
pub const MAX_FABRIC_CONNECTIONS_PER_IP: usize = 8;

/// Absolute ingress phase deadlines in seconds; these never bound model execution time.
pub const TLS_HANDSHAKE_TIMEOUT_SECS: u64 = 10;

pub const HEADER_TIMEOUT_SECS: u64 = 15;

pub const BODY_TIMEOUT_SECS: u64 = 30;

/// Max rows retained in the worker's ingress log (oldest trimmed).
pub const INGRESS_LOG_RETAIN: i64 = 10000;

/// Where the fabric listener binds and which inference server it fronts.
#[derive(Debug)]
pub struct FabricListenConfig {
    pub bind_host: String,
    pub port: u16,
    pub ollama_base: String,
}

} // verus!
