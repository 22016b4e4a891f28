//! Enrollment handshake: the coordinator proves knowledge of the code's
//! shared secret and signs the request; the worker's answer must match the
//! code it handed out.
use vstd::prelude::*;
use vstd::utf8::{encode_utf8, encode_utf8_decode_utf8};

use crate::enroll::crypto::{
    base64url_bytes, base64url_decode, base64url_encode, base64url_text, ct_eq, ed25519_accepts,
    ed25519_key_error, ed25519_public, ed25519_signature, hmac_sha256, hmac_sha256_tag, key_error,
    verify_strict, KeyPair, PublicKeyBytes,
};
use crate::text::{
    chars_eq, chars_of, decimal, push_all, push_decimal, push_str, starts_with, starts_with_chars, trim,
    trimmed,
};

verus! {

/// Context bytes that start the secret-proof MAC input.
pub const PROOF_CONTEXT: &'static str = "lokai-enroll-v1-proof";

/// Context bytes that start a signed enrollment request.
pub const REQUEST_SIGN_CONTEXT: &'static str = "lokai-enroll-v2-request";

pub open spec fn pow256(k: nat) -> nat
    decreases k,
{
    if k == 0 {
        1
    } else {
        256 * pow256((k - 1) as nat)
    }
}

/// The last `k` bytes of `n`, most significant first.
pub open spec fn be_bytes(n: nat, k: nat) -> Seq<u8>
    decreases k,
{
    if k == 0 {
        Seq::empty()
    } else {
        be_bytes(n / 256, (k - 1) as nat).push((n % 256) as u8)
    }
}

/// A field as the signed message frames it: its length as 8 big-endian
/// bytes, then the field.
pub open spec fn frame(f: Seq<u8>) -> Seq<u8> {
    be_bytes(f.len(), 8) + f
}

/// The message the coordinator signs.
pub open spec fn sign_message(worker_pk: Seq<u8>, coordinator_pk: Seq<u8>, label: Seq<char>, secret_proof: Seq<char>) -> Seq<u8> {
    encode_utf8(REQUEST_SIGN_CONTEXT@) + frame(worker_pk) + frame(coordinator_pk) + frame(
        encode_utf8(label),
    ) + frame(encode_utf8(secret_proof))
}

fn push_be(out: &mut Vec<u8>, n: u64, k: u32)
    ensures
        final(out)@ == old(out)@ + be_bytes(n as nat, k as nat),
    decreases k,
{
    if k > 0 {
        push_be(out, n / 256, k - 1);
        out.push((n % 256) as u8);
        assert(out@ =~= old(out)@ + be_bytes(n as nat, k as nat));
    } else {
        assert(out@ =~= old(out)@ + be_bytes(n as nat, k as nat));
    }
}

fn push_bytes(out: &mut Vec<u8>, b: &[u8])
    ensures
        final(out)@ == old(out)@ + b@,
{
    let mut i: usize = 0;
    while i < b.len()
        invariant
            i <= b@.len(),
            out@ == old(out)@ + b@.take(i as int),
        decreases b.len() - i,
    {
        out.push(b[i]);
        assert(out@ =~= old(out)@ + b@.take(i + 1));
        i = i + 1;
    }
    assert(b@.take(b@.len() as int) =~= b@);
}

fn push_frame(out: &mut Vec<u8>, field: &[u8])
    ensures
        final(out)@ == old(out)@ + frame(field@),
{
    push_be(out, field.len() as u64, 8);
    push_bytes(out, field);
    assert(out@ =~= old(out)@ + frame(field@));
}

/// The signed request message: the context, then each field framed by its length.
pub fn request_sign_message(worker_pk: &[u8], coordinator_pk: &[u8], label: &str, secret_proof: &str) -> (r: Vec<u8>)
    ensures
        r@ == sign_message(worker_pk@, coordinator_pk@, label@, secret_proof@),
{
    let mut msg: Vec<u8> = Vec::new();
    push_bytes(&mut msg, REQUEST_SIGN_CONTEXT.as_bytes());
    push_frame(&mut msg, worker_pk);
    push_frame(&mut msg, coordinator_pk);
    push_frame(&mut msg, label.as_bytes());
    push_frame(&mut msg, secret_proof.as_bytes());
    assert(msg@ =~= sign_message(worker_pk@, coordinator_pk@, label@, secret_proof@));
    msg
}

proof fn lemma_be_len(n: nat, k: nat)
    ensures
        be_bytes(n, k).len() == k,
    decreases k,
{
    if k > 0 {
        lemma_be_len(n / 256, (k - 1) as nat);
    }
}

proof fn lemma_be_injective(n: nat, m: nat, k: nat)
    requires
        n < pow256(k),
        m < pow256(k),
        be_bytes(n, k) == be_bytes(m, k),
    ensures
        n == m,
    decreases k,
{
    if k > 0 {
        let p = pow256((k - 1) as nat);
        assert(be_bytes(n, k) == be_bytes(n / 256, (k - 1) as nat).push((n % 256) as u8));
        assert(be_bytes(m, k) == be_bytes(m / 256, (k - 1) as nat).push((m % 256) as u8));
        assert(be_bytes(n, k).last() == (n % 256) as u8);
        assert(be_bytes(m, k).last() == (m % 256) as u8);
        assert(be_bytes(n, k).last() == be_bytes(m, k).last());
        assert((n % 256) as u8 == (m % 256) as u8);
        assert(be_bytes(n, k).drop_last() =~= be_bytes(n / 256, (k - 1) as nat));
        assert(be_bytes(m, k).drop_last() =~= be_bytes(m / 256, (k - 1) as nat));
        assert(0 <= n % 256 < 256 && 0 <= m % 256 < 256);
        assert(((n % 256) as u8) as nat == n % 256);
        assert(((m % 256) as u8) as nat == m % 256);
        assert(n % 256 == m % 256);
        assert(n / 256 < p) by (nonlinear_arith)
            requires
                n < 256 * p,
        ;
        assert(m / 256 < p) by (nonlinear_arith)
            requires
                m < 256 * p,
        ;
        lemma_be_injective(n / 256, m / 256, (k - 1) as nat);
        assert(n == 256 * (n / 256) + n % 256);
        assert(m == 256 * (m / 256) + m % 256);
    }
}

/// A frame and what follows it can be read back from their concatenation.
proof fn lemma_frame_split(a: Seq<u8>, x: Seq<u8>, b: Seq<u8>, y: Seq<u8>)
    requires
        frame(a) + x == frame(b) + y,
        a.len() < pow256(8),
        b.len() < pow256(8),
    ensures
        a == b,
        x == y,
{
    lemma_be_len(a.len(), 8);
    lemma_be_len(b.len(), 8);
    let s = frame(a) + x;
    assert(s.take(8) =~= be_bytes(a.len(), 8));
    assert((frame(b) + y).take(8) =~= be_bytes(b.len(), 8));
    lemma_be_injective(a.len(), b.len(), 8);
    assert(s.subrange(8, 8 + a.len() as int) =~= a);
    assert((frame(b) + y).subrange(8, 8 + b.len() as int) =~= b);
    assert(s.skip(8 + a.len() as int) =~= x);
    assert((frame(b) + y).skip(8 + b.len() as int) =~= y);
}

/// Signed request messages tell their fields apart: two requests with the
/// same message have the same keys, label and proof, so moving characters
/// between label and proof changes what is signed.
pub proof fn lemma_sign_message_injective(
    w1: Seq<u8>,
    c1: Seq<u8>,
    l1: Seq<char>,
    p1: Seq<char>,
    w2: Seq<u8>,
    c2: Seq<u8>,
    l2: Seq<char>,
    p2: Seq<char>,
)
    requires
        sign_message(w1, c1, l1, p1) == sign_message(w2, c2, l2, p2),
        w1.len() < pow256(8) && w2.len() < pow256(8),
        c1.len() < pow256(8) && c2.len() < pow256(8),
        encode_utf8(l1).len() < pow256(8) && encode_utf8(l2).len() < pow256(8),
        encode_utf8(p1).len() < pow256(8) && encode_utf8(p2).len() < pow256(8),
    ensures
        w1 == w2,
        c1 == c2,
        l1 == l2,
        p1 == p2,
{
    let ctx = encode_utf8(REQUEST_SIGN_CONTEXT@);
    let (el1, ep1, el2, ep2) = (encode_utf8(l1), encode_utf8(p1), encode_utf8(l2), encode_utf8(p2));
    let r1 = frame(w1) + frame(c1) + frame(el1) + frame(ep1);
    let r2 = frame(w2) + frame(c2) + frame(el2) + frame(ep2);
    assert(sign_message(w1, c1, l1, p1) =~= ctx + r1);
    assert(sign_message(w2, c2, l2, p2) =~= ctx + r2);
    assert(r1 =~= (ctx + r1).skip(ctx.len() as int));
    assert(r2 =~= (ctx + r2).skip(ctx.len() as int));
    assert(r1 =~= frame(w1) + (frame(c1) + frame(el1) + frame(ep1)));
    assert(r2 =~= frame(w2) + (frame(c2) + frame(el2) + frame(ep2)));
    lemma_frame_split(w1, frame(c1) + frame(el1) + frame(ep1), w2, frame(c2) + frame(el2) + frame(ep2));
    assert(frame(c1) + frame(el1) + frame(ep1) =~= frame(c1) + (frame(el1) + frame(ep1)));
    assert(frame(c2) + frame(el2) + frame(ep2) =~= frame(c2) + (frame(el2) + frame(ep2)));
    lemma_frame_split(c1, frame(el1) + frame(ep1), c2, frame(el2) + frame(ep2));
    lemma_frame_split(el1, frame(ep1), el2, frame(ep2));
    assert(frame(ep1) =~= frame(ep1) + Seq::<u8>::empty());
    assert(frame(ep2) =~= frame(ep2) + Seq::<u8>::empty());
    lemma_frame_split(ep1, Seq::empty(), ep2, Seq::empty());
    encode_utf8_decode_utf8(l1);
    encode_utf8_decode_utf8(l2);
    encode_utf8_decode_utf8(p1);
    encode_utf8_decode_utf8(p2);
}

/// The secret proof: HMAC-SHA256 under the shared secret of the proof
/// context, the worker key and the coordinator key.
pub open spec fn proof_tag(secret: Seq<u8>, worker_pk: Seq<u8>, coordinator_pk: Seq<u8>) -> Seq<u8> {
    hmac_sha256_tag(secret, encode_utf8(PROOF_CONTEXT@) + worker_pk + coordinator_pk)
}

pub fn compute_secret_proof_bytes(secret: &[u8], worker_pk: &[u8], coordinator_pk: &[u8]) -> (r: Vec<u8>)
    ensures
        r@ == proof_tag(secret@, worker_pk@, coordinator_pk@),
        r@.len() == 32,
{
    let mut msg: Vec<u8> = Vec::new();
    push_bytes(&mut msg, PROOF_CONTEXT.as_bytes());
    push_bytes(&mut msg, worker_pk);
    push_bytes(&mut msg, coordinator_pk);
    hmac_sha256(secret, msg.as_slice())
}

/// The secret proof in URL-safe base64.
pub fn compute_secret_proof(secret: &[u8], worker_pk: &[u8], coordinator_pk: &[u8]) -> (r: String)
    ensures
        r@ == base64url_text(proof_tag(secret@, worker_pk@, coordinator_pk@)),
        base64url_bytes(r@) == Some(proof_tag(secret@, worker_pk@, coordinator_pk@)),
{
    let tag = compute_secret_proof_bytes(secret, worker_pk, coordinator_pk);
    base64url_encode(tag.as_slice())
}

/// Whether a base64 proof is the proof for these keys under the secret.
pub open spec fn proof_accepted(secret: Seq<u8>, worker_pk: Seq<u8>, coordinator_pk: Seq<u8>, proof_b64: Seq<char>) -> bool {
    base64url_bytes(proof_b64) == Some(proof_tag(secret, worker_pk, coordinator_pk))
}

pub fn verify_secret_proof(secret: &[u8], worker_pk: &[u8], coordinator_pk: &[u8], proof_b64: &str) -> (r: bool)
    ensures
        r == proof_accepted(secret@, worker_pk@, coordinator_pk@, proof_b64@),
{
    let expected = compute_secret_proof_bytes(secret, worker_pk, coordinator_pk);
    let got = match base64url_decode(proof_b64) {
        Some(g) => g,
        None => return false,
    };
    ct_eq(got.as_slice(), expected.as_slice())
}

/// A proof computed for a secret and pair of keys is accepted for them.
pub proof fn lemma_proof_round_trip(secret: Seq<u8>, worker_pk: Seq<u8>, coordinator_pk: Seq<u8>, proof_b64: Seq<char>)
    requires
        base64url_bytes(proof_b64) == Some(proof_tag(secret, worker_pk, coordinator_pk)),
    ensures
        proof_accepted(secret, worker_pk, coordinator_pk, proof_b64),
{
}

/// Sign an enrollment request as the coordinator; the signature in URL-safe base64.
pub fn sign_enrollment_request(coordinator: &KeyPair, worker_pk: &[u8], secret_proof: &str, label: &str) -> (r: String)
    ensures
        r@ == base64url_text(
            ed25519_signature(
                coordinator.seed_view(),
                sign_message(worker_pk@, ed25519_public(coordinator.seed_view()), label@, secret_proof@),
            ),
        ),
        base64url_bytes(r@) == Some(
            ed25519_signature(
                coordinator.seed_view(),
                sign_message(worker_pk@, ed25519_public(coordinator.seed_view()), label@, secret_proof@),
            ),
        ),
{
    let coordinator_pk = coordinator.public();
    let msg = request_sign_message(worker_pk, coordinator_pk.0.as_slice(), label, secret_proof);
    let sig = coordinator.sign(msg.as_slice());
    base64url_encode(sig.as_slice())
}

/// Whether a request signature checks out: the coordinator key is a key,
/// the signature decodes to 64 bytes, and `verify_strict` accepts it over
/// the request message.
pub open spec fn signature_accepted(coordinator_pk: Seq<u8>, worker_pk: Seq<u8>, label: Seq<char>, secret_proof: Seq<char>, signature_b64: Seq<char>) -> bool {
    ed25519_key_error(coordinator_pk) is None && match base64url_bytes(signature_b64) {
        Some(sig) => sig.len() == 64 && ed25519_accepts(
            coordinator_pk,
            sign_message(worker_pk, coordinator_pk, label, secret_proof),
            sig,
        ),
        None => false,
    }
}

pub fn verify_enrollment_request_signature(
    coordinator_pk: &[u8],
    worker_pk: &[u8],
    label: &str,
    secret_proof: &str,
    signature_b64: &str,
) -> (r: bool)
    ensures
        r == signature_accepted(coordinator_pk@, worker_pk@, label@, secret_proof@, signature_b64@),
{
    if key_error(coordinator_pk).is_some() {
        return false;
    }
    let sig = match base64url_decode(signature_b64) {
        Some(s) => s,
        None => return false,
    };
    if sig.len() != 64 {
        return false;
    }
    let msg = request_sign_message(worker_pk, coordinator_pk, label, secret_proof);
    verify_strict(coordinator_pk, msg.as_slice(), sig.as_slice())
}

/// A request signed with a coordinator's key verifies under its public key,
/// for the same worker key, label and proof.
pub proof fn lemma_signature_round_trip(
    seed: Seq<u8>,
    worker_pk: Seq<u8>,
    label: Seq<char>,
    secret_proof: Seq<char>,
    signature_b64: Seq<char>,
)
    requires
        ed25519_key_error(ed25519_public(seed)) is None,
        base64url_bytes(signature_b64) == Some(
            ed25519_signature(seed, sign_message(worker_pk, ed25519_public(seed), label, secret_proof)),
        ),
        ed25519_signature(seed, sign_message(worker_pk, ed25519_public(seed), label, secret_proof)).len()
            == 64,
        ed25519_accepts(
            ed25519_public(seed),
            sign_message(worker_pk, ed25519_public(seed), label, secret_proof),
            ed25519_signature(seed, sign_message(worker_pk, ed25519_public(seed), label, secret_proof)),
        ),
    ensures
        signature_accepted(ed25519_public(seed), worker_pk, label, secret_proof, signature_b64),
{
}

/// Why enrollment failed.
#[derive(Debug)]
pub enum EnrollError {
    Code(String),
    Egress(String),
    Http(String),
    Rejected(String),
    Resolve(String),
    ResponseMismatch(String),
}

pub open spec fn enroll_error_text(e: EnrollError) -> Seq<char> {
    match e {
        EnrollError::Code(m) => "code: "@ + m@,
        EnrollError::Egress(m) => "egress: "@ + m@,
        EnrollError::Http(m) => "http enrollment failed: "@ + m@,
        EnrollError::Rejected(m) => "worker rejected enrollment: "@ + m@,
        EnrollError::Resolve(m) => "resolve host: "@ + m@,
        EnrollError::ResponseMismatch(m) => "enrollment response does not match code: "@ + m@,
    }
}

impl EnrollError {
    pub fn message(&self) -> (r: String)
        ensures
            r@ == enroll_error_text(*self),
    {
        let (head, m) = match self {
            EnrollError::Code(m) => ("code: ", m),
            EnrollError::Egress(m) => ("egress: ", m),
            EnrollError::Http(m) => ("http enrollment failed: ", m),
            EnrollError::Rejected(m) => ("worker rejected enrollment: ", m),
            EnrollError::Resolve(m) => ("resolve host: ", m),
            EnrollError::ResponseMismatch(m) => ("enrollment response does not match code: ", m),
        };
        let mut s = String::from_str(head);
        push_str(&mut s, m.as_str());
        s
    }
}

/// Failure to resolve an enrollment host.
#[derive(Debug)]
pub enum ResolveError {
    Host(String),
}

impl ResolveError {
    pub fn message(&self) -> (r: String)
        ensures
            r@ == match *self {
                ResolveError::Host(h) => "could not resolve host '"@ + h@ + "'"@,
            },
    {
        match self {
            ResolveError::Host(h) => {
                let mut s = String::from_str("could not resolve host '");
                push_str(&mut s, h.as_str());
                push_str(&mut s, "'");
                s
            },
        }
    }
}

/// What a worker's enrollment code carries.
#[derive(Debug)]
pub struct EnrollmentCode {
    pub worker_id: String,
    pub worker_pubkey: PublicKeyBytes,
    pub audit_pubkey: PublicKeyBytes,
    pub host: String,
    pub enroll_port: u16,
    pub fabric_port: u16,
    /// The enrollment listener's TLS certificate, when it serves TLS.
    pub enroll_tls_cert_b64: Option<String>,
}

/// The coordinator's enrollment request.
#[derive(Debug)]
pub struct EnrollCompleteRequest {
    pub secret_proof: String,
    pub coordinator_pubkey: PublicKeyBytes,
    pub coordinator_signature_b64: String,
    pub label: String,
}

/// The worker's answer to an enrollment request.
#[derive(Debug)]
pub struct EnrollCompleteResponse {
    pub ok: bool,
    pub error: Option<String>,
    pub worker_id: String,
    pub worker_pubkey: PublicKeyBytes,
    pub audit_pubkey: PublicKeyBytes,
    pub fabric_port: u16,
    pub host: String,
    pub fabric_tls_cert_b64: Option<String>,
}

pub open spec fn opt_text(s: Option<String>) -> Option<Seq<char>> {
    match s {
        Some(t) => Some(t@),
        None => None,
    }
}

/// The check of a response against the code: the first mismatch, in the
/// order worker id, worker key, audit key, fabric port, host, key validity,
/// TLS certificate; `Ok` when there is none.
pub open spec fn response_check(code: EnrollmentCode, resp: EnrollCompleteResponse) -> Result<(), Seq<char>> {
    if resp.worker_id@ != code.worker_id@ {
        Err("worker_id expected "@ + code.worker_id@ + ", got "@ + resp.worker_id@)
    } else if resp.worker_pubkey.0@ != code.worker_pubkey.0@ {
        Err("worker_pubkey does not match code"@)
    } else if resp.audit_pubkey.0@ != code.audit_pubkey.0@ {
        Err("audit_pubkey does not match code"@)
    } else if resp.fabric_port != code.fabric_port {
        Err("fabric_port expected "@ + decimal(code.fabric_port as nat) + ", got "@ + decimal(
            resp.fabric_port as nat,
        ))
    } else if resp.host@ != code.host@ {
        Err("host expected "@ + code.host@ + ", got "@ + resp.host@)
    } else if ed25519_key_error(resp.worker_pubkey.0@) is Some {
        Err("worker_pubkey invalid: "@ + ed25519_key_error(resp.worker_pubkey.0@)->0)
    } else if ed25519_key_error(resp.audit_pubkey.0@) is Some {
        Err("audit_pubkey invalid: "@ + ed25519_key_error(resp.audit_pubkey.0@)->0)
    } else if opt_text(code.enroll_tls_cert_b64) is Some && opt_text(resp.fabric_tls_cert_b64)
        != opt_text(code.enroll_tls_cert_b64) {
        Err("fabric TLS cert does not match code"@)
    } else {
        Ok(())
    }
}

fn bytes_eq(a: &[u8], b: &[u8]) -> (r: bool)
    ensures
        r == (a@ == b@),
{
    if a.len() != b.len() {
        return false;
    }
    let mut i: usize = 0;
    while i < a.len()
        invariant
            i <= a@.len(),
            a@.len() == b@.len(),
            forall|j: int| 0 <= j < i ==> a@[j] == b@[j],
        decreases a.len() - i,
    {
        if a[i] != b[i] {
            return false;
        }
        i = i + 1;
    }
    assert(a@ =~= b@);
    true
}

fn text_eq(a: &String, b: &String) -> (r: bool)
    ensures
        r == (a@ == b@),
{
    let x = chars_of(a.as_str());
    let y = chars_of(b.as_str());
    chars_eq(x.as_slice(), y.as_slice())
}

fn mismatch(m: String) -> (r: Result<(), EnrollError>)
    ensures
        r matches Err(EnrollError::ResponseMismatch(x)) && x@ == m@,
{
    Err(EnrollError::ResponseMismatch(m))
}

/// Check that the worker's answer matches the code the coordinator used.
pub fn verify_enrollment_response(code: &EnrollmentCode, resp: &EnrollCompleteResponse) -> (r: Result<(), EnrollError>)
    ensures
        match r {
            Ok(()) => response_check(*code, *resp) is Ok,
            Err(e) => (e matches EnrollError::ResponseMismatch(m) && response_check(*code, *resp)
                == Err::<(), Seq<char>>(m@)),
        },
{
    if !text_eq(&resp.worker_id, &code.worker_id) {
        let mut m = String::from_str("worker_id expected ");
        push_str(&mut m, code.worker_id.as_str());
        push_str(&mut m, ", got ");
        push_str(&mut m, resp.worker_id.as_str());
        return mismatch(m);
    }
    if !bytes_eq(resp.worker_pubkey.0.as_slice(), code.worker_pubkey.0.as_slice()) {
        return mismatch(String::from_str("worker_pubkey does not match code"));
    }
    if !bytes_eq(resp.audit_pubkey.0.as_slice(), code.audit_pubkey.0.as_slice()) {
        return mismatch(String::from_str("audit_pubkey does not match code"));
    }
    if resp.fabric_port != code.fabric_port {
        let mut m = String::from_str("fabric_port expected ");
        push_decimal(&mut m, code.fabric_port as u128);
        push_str(&mut m, ", got ");
        push_decimal(&mut m, resp.fabric_port as u128);
        return mismatch(m);
    }
    if !text_eq(&resp.host, &code.host) {
        let mut m = String::from_str("host expected ");
        push_str(&mut m, code.host.as_str());
        push_str(&mut m, ", got ");
        push_str(&mut m, resp.host.as_str());
        return mismatch(m);
    }
    if let Some(e) = key_error(resp.worker_pubkey.0.as_slice()) {
        let mut m = String::from_str("worker_pubkey invalid: ");
        push_str(&mut m, e.as_str());
        return mismatch(m);
    }
    if let Some(e) = key_error(resp.audit_pubkey.0.as_slice()) {
        let mut m = String::from_str("audit_pubkey invalid: ");
        push_str(&mut m, e.as_str());
        return mismatch(m);
    }
    if let Some(code_cert) = &code.enroll_tls_cert_b64 {
        let same = match &resp.fabric_tls_cert_b64 {
            Some(resp_cert) => text_eq(resp_cert, code_cert),
            None => false,
        };
        if !same {
            return mismatch(String::from_str("fabric TLS cert does not match code"));
        }
    }
    Ok(())
}

/// The scheme of the enrollment listener: TLS when the code carries a certificate.
pub fn enrollment_scheme(code: &EnrollmentCode) -> (r: &'static str)
    ensures
        r@ == (if code.enroll_tls_cert_b64 is Some {
            "https"@
        } else {
            "http"@
        }),
{
    if code.enroll_tls_cert_b64.is_some() {
        "https"
    } else {
        "http"
    }
}

/// The enrollment code a user typed, trimmed, with `prefix` in front:
/// a code that already starts with it is kept, any other gets it in front.
pub open spec fn normalized_code(input: Seq<char>, prefix: Seq<char>) -> Seq<char> {
    let t = trim(input);
    if starts_with(t, prefix) {
        t
    } else {
        prefix + t
    }
}

/// Normalize a user-typed enrollment code before it is decoded; `prefix` is the
/// enrollment code prefix.
pub fn normalize_user_code(input: &str, prefix: &str) -> (r: String)
    ensures
        r@ == normalized_code(input@, prefix@),
{
    let c = chars_of(input);
    let t = trimmed(c.as_slice());
    let p = chars_of(prefix);
    let mut out = String::new();
    if !starts_with_chars(t.as_slice(), p.as_slice()) {
        push_str(&mut out, prefix);
    }
    push_all(&mut out, t.as_slice());
    out
}

/// A response is accepted exactly when it names the code's worker, both of
/// the code's keys, its fabric port and its host, both keys are valid, and,
/// when the code carries a TLS certificate, the same certificate.
pub proof fn lemma_response_accepted_iff_matching(code: EnrollmentCode, resp: EnrollCompleteResponse)
    ensures
        response_check(code, resp) is Ok <==> {
            &&& resp.worker_id@ == code.worker_id@
            &&& resp.worker_pubkey.0@ == code.worker_pubkey.0@
            &&& resp.audit_pubkey.0@ == code.audit_pubkey.0@
            &&& resp.fabric_port == code.fabric_port
            &&& resp.host@ == code.host@
            &&& ed25519_key_error(resp.worker_pubkey.0@) is None
            &&& ed25519_key_error(resp.audit_pubkey.0@) is None
            &&& (code.enroll_tls_cert_b64 matches Some(c) ==> (resp.fabric_tls_cert_b64 matches Some(x)
                && x@ == c@))
        },
{
}

/// A response that agrees on the worker, its keys and its port but names
/// another host is refused, and the refusal names both hosts.
pub proof fn lemma_other_host_refused(code: EnrollmentCode, resp: EnrollCompleteResponse)
    requires
        resp.worker_id@ == code.worker_id@,
        resp.worker_pubkey.0@ == code.worker_pubkey.0@,
        resp.audit_pubkey.0@ == code.audit_pubkey.0@,
        resp.fabric_port == code.fabric_port,
        resp.host@ != code.host@,
    ensures
        response_check(code, resp) == Err::<(), Seq<char>>("host expected "@ + code.host@ + ", got "@ + resp.host@),
{
}

} // verus!
