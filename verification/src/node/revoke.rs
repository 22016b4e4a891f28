//! Coordinator → worker revocation push: the request sent and how the
//! worker's answer is read.
use vstd::prelude::*;

use crate::enroll::crypto::{ed25519_public, KeyPair, PublicKeyBytes};
use crate::text::{decimal, push_decimal, push_str};

verus! {

#[derive(Debug)]
pub struct RevokeRequest {
    pub coordinator_pubkey: PublicKeyBytes,
    pub epoch: u64,
    pub worker_id: Option<String>,
}

#[derive(Debug)]
pub struct RevokeResponse {
    pub ok: bool,
    pub error: Option<String>,
    pub epoch: u64,
}

#[derive(Debug)]
pub enum RevokeError {
    Egress(String),
    Fabric(String),
    NoServerCert,
    Rejected(String),
}

pub open spec fn revoke_error_text(e: RevokeError) -> Seq<char> {
    match e {
        RevokeError::Egress(m) => "egress: "@ + m@,
        RevokeError::Fabric(m) => "fabric: "@ + m@,
        RevokeError::NoServerCert => "missing worker fabric TLS certificate — re-enroll to enable push revoke"@,
        RevokeError::Rejected(m) => "revoke rejected: "@ + m@,
    }
}

impl RevokeError {
    pub fn message(&self) -> (r: String)
        ensures
            r@ == revoke_error_text(*self),
    {
        match self {
            RevokeError::Egress(m) => {
                let mut s = String::from_str("egress: ");
                push_str(&mut s, m.as_str());
                s
            },
            RevokeError::Fabric(m) => {
                let mut s = String::from_str("fabric: ");
                push_str(&mut s, m.as_str());
                s
            },
            RevokeError::NoServerCert => String::from_str(
                "missing worker fabric TLS certificate — re-enroll to enable push revoke",
            ),
            RevokeError::Rejected(m) => {
                let mut s = String::from_str("revoke rejected: ");
                push_str(&mut s, m.as_str());
                s
            },
        }
    }
}

/// The request a coordinator pushes: its public key, the revocation epoch,
/// and the worker it names, if any.
pub fn revoke_request(coordinator: &KeyPair, epoch: u64, worker_id: Option<&str>) -> (r: RevokeRequest)
    ensures
        r.coordinator_pubkey.0@ == ed25519_public(coordinator.seed_view()),
        r.epoch == epoch,
        match (r.worker_id, worker_id) {
            (Some(a), Some(b)) => a@ == b@,
            (None, None) => true,
            _ => false,
        },
{
    let worker_id = match worker_id {
        Some(w) => Some(String::from_str(w)),
        None => None,
    };
    RevokeRequest { coordinator_pubkey: coordinator.public(), epoch, worker_id }
}

/// A push is refused before sending when the worker's TLS certificate is unknown.
pub fn check_server_cert(server_cert: &[u8]) -> (r: Result<(), RevokeError>)
    ensures
        r is Ok <==> server_cert@.len() > 0,
        r matches Err(e) ==> e is NoServerCert,
{
    if server_cert.len() == 0 {
        Err(RevokeError::NoServerCert)
    } else {
        Ok(())
    }
}

/// The text of a refusal the worker gave no reason for.
pub open spec fn default_rejection(status: u16) -> Seq<char> {
    "worker rejected revoke (HTTP "@ + decimal(status as nat) + ")"@
}

/// Read the worker's answer: its parsed body, or, when the body does not
/// parse, an answer that is ok exactly on HTTP 200 for the epoch sent. A
/// refusal is an error carrying the worker's reason.
pub fn revoke_outcome(parsed: Option<RevokeResponse>, status: u16, epoch: u64) -> (r: Result<RevokeResponse, RevokeError>)
    ensures
        match parsed {
            Some(p) => if p.ok {
                r == Ok::<RevokeResponse, RevokeError>(p)
            } else {
                r matches Err(RevokeError::Rejected(m)) && m@ == match p.error {
                    Some(e) => e@,
                    None => default_rejection(status),
                }
            },
            None => if status == 200 {
                r matches Ok(x) && x.ok && x.error is None && x.epoch == epoch
            } else {
                r matches Err(RevokeError::Rejected(m)) && m@ == default_rejection(status)
            },
        },
{
    let resp = match parsed {
        Some(p) => p,
        None => RevokeResponse { ok: status == 200, error: None, epoch },
    };
    if !resp.ok {
        let m = match resp.error {
            Some(e) => e,
            None => {
                let mut s = String::from_str("worker rejected revoke (HTTP ");
                push_decimal(&mut s, status as u128);
                push_str(&mut s, ")");
                s
            },
        };
        return Err(RevokeError::Rejected(m));
    }
    Ok(resp)
}

} // verus!
