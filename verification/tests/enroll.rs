use lokai_engine::enroll::crypto::{KeyPair, PublicKeyBytes};
use lokai_engine::enroll::handshake::{
    compute_secret_proof, compute_secret_proof_bytes, enrollment_scheme, request_sign_message,
    sign_enrollment_request, verify_enrollment_request_signature, verify_enrollment_response,
    verify_secret_proof, EnrollCompleteResponse, EnrollError, EnrollmentCode, ResolveError,
};
use lokai_engine::enroll::http::{
    after_chunk, at_end_of_stream, http_response_text, parse_http_post_json, status_reason,
    ParseResult, ReadStep,
};

fn hex(s: &str) -> Vec<u8> {
    (0..s.len())
        .step_by(2)
        .map(|i| u8::from_str_radix(&s[i..i + 2], 16).unwrap())
        .collect()
}

#[test]
fn request_signature_frames_variable_fields() {
    let coordinator = KeyPair::generate();
    let worker = KeyPair::generate().public().0;
    let sig = sign_enrollment_request(&coordinator, &worker, "A1B2", "node");
    assert!(!verify_enrollment_request_signature(
        &coordinator.public().0,
        &worker,
        "nodeA",
        "1B2",
        &sig,
    ));
}

#[test]
fn proof_verifies() {
    let secret = b"test-secret-32-bytes-long!!!!!!";
    let w = vec![1u8; 32];
    let c = vec![2u8; 32];
    let p = compute_secret_proof(secret, &w, &c);
    assert!(verify_secret_proof(secret, &w, &c, &p));
    assert!(!verify_secret_proof(secret, &w, &c, "bad"));
}

#[test]
fn request_signature_verifies() {
    let coord = KeyPair::generate();
    let w = KeyPair::generate().public().0;
    let proof = "proof";
    let sig = sign_enrollment_request(&coord, &w, proof, "gpu");
    assert!(verify_enrollment_request_signature(
        &coord.public().0,
        &w,
        "gpu",
        proof,
        &sig
    ));
    assert!(!verify_enrollment_request_signature(
        &coord.public().0,
        &w,
        "gpu",
        "wrong",
        &sig
    ));
}

fn code_for(w: &KeyPair, a: &KeyPair) -> EnrollmentCode {
    EnrollmentCode {
        worker_id: "w_test".into(),
        worker_pubkey: w.public(),
        audit_pubkey: a.public(),
        host: "127.0.0.1".into(),
        enroll_port: 9470,
        fabric_port: 9471,
        enroll_tls_cert_b64: None,
    }
}

fn response_for(code: &EnrollmentCode) -> EnrollCompleteResponse {
    EnrollCompleteResponse {
        ok: true,
        error: None,
        worker_id: code.worker_id.clone(),
        worker_pubkey: PublicKeyBytes(code.worker_pubkey.0.clone()),
        audit_pubkey: PublicKeyBytes(code.audit_pubkey.0.clone()),
        fabric_port: code.fabric_port,
        host: code.host.clone(),
        fabric_tls_cert_b64: None,
    }
}

#[test]
fn response_mismatch_is_rejected() {
    let w = KeyPair::generate();
    let a = KeyPair::generate();
    let code = code_for(&w, &a);
    let mut resp = response_for(&code);
    assert!(verify_enrollment_response(&code, &resp).is_ok());
    resp.worker_pubkey = KeyPair::generate().public();
    assert!(matches!(
        verify_enrollment_response(&code, &resp),
        Err(EnrollError::ResponseMismatch(_))
    ));
}

#[test]
fn response_checks_name_the_first_mismatch() {
    let w = KeyPair::generate();
    let a = KeyPair::generate();
    let code = code_for(&w, &a);
    let mut resp = response_for(&code);
    resp.fabric_port = 1;
    match verify_enrollment_response(&code, &resp) {
        Err(EnrollError::ResponseMismatch(m)) => assert_eq!(m, "fabric_port expected 9471, got 1"),
        other => panic!("unexpected {other:?}"),
    }
    let mut resp = response_for(&code);
    resp.host = "10.0.0.9".into();
    resp.worker_id = "w_other".into();
    match verify_enrollment_response(&code, &resp) {
        Err(e) => assert_eq!(
            e.message(),
            "enrollment response does not match code: worker_id expected w_test, got w_other"
        ),
        Ok(()) => panic!("mismatch accepted"),
    }
    let mut tls_code = code_for(&w, &a);
    tls_code.enroll_tls_cert_b64 = Some("CERT".into());
    assert_eq!(enrollment_scheme(&tls_code), "https");
    assert_eq!(enrollment_scheme(&code), "http");
    let resp = response_for(&tls_code);
    assert!(verify_enrollment_response(&tls_code, &resp).is_err());
    let mut resp = response_for(&tls_code);
    resp.fabric_tls_cert_b64 = Some("CERT".into());
    assert!(verify_enrollment_response(&tls_code, &resp).is_ok());
}

#[test]
fn response_with_malformed_key_is_rejected() {
    let w = KeyPair::generate();
    let a = KeyPair::generate();
    let mut code = code_for(&w, &a);
    code.worker_pubkey = PublicKeyBytes(vec![7u8; 5]);
    let resp = response_for(&code);
    match verify_enrollment_response(&code, &resp) {
        Err(EnrollError::ResponseMismatch(m)) => assert!(m.starts_with("worker_pubkey invalid: ")),
        other => panic!("unexpected {other:?}"),
    }
}

#[test]
fn secret_proof_matches_hmac_sha256() {
    let secret = b"test-secret-32-bytes-long!!!!!!";
    let w = vec![1u8; 32];
    let c = vec![2u8; 32];
    assert_eq!(
        compute_secret_proof_bytes(secret, &w, &c),
        hex("dd815e9ac50436fe14c2b413cb4e49fe1da06e2c48e6bd55b5701460578fc588")
    );
    assert_eq!(
        compute_secret_proof(secret, &w, &c),
        "3YFemsUENv4UwrQTy05J_h2gbixI5r1VtXAUYFePxYg"
    );
    assert!(!verify_secret_proof(b"other secret", &w, &c, "3YFemsUENv4UwrQTy05J_h2gbixI5r1VtXAUYFePxYg"));
}

#[test]
fn ed25519_known_vector() {
    let k = KeyPair::from_seed(hex(
        "9d61b19deffd5a60ba844af492ec2cc44449c5697b326919703bac031cae7f60",
    ))
    .unwrap();
    assert_eq!(
        k.public().0,
        hex("d75a980182b10ab7d54bfed3c964073a0ee172f3daa62325af021a68f707511a")
    );
    assert_eq!(
        k.sign(b""),
        hex("e5564300c360ac729086e2cc806e828a84877f1eb8e5d974d873e065224901555fb8821590a33bacc61e39701cf9b46bd25bf5f0595bbe24655141438e7a100b")
    );
    assert!(KeyPair::from_seed(vec![0u8; 31]).is_none());
}

#[test]
fn request_message_frames_each_field_with_its_length() {
    let m = request_sign_message(&[9u8, 9], &[8u8], "ab", "p");
    let mut expected = b"lokai-enroll-v2-request".to_vec();
    expected.extend_from_slice(&2u64.to_be_bytes());
    expected.extend_from_slice(&[9, 9]);
    expected.extend_from_slice(&1u64.to_be_bytes());
    expected.extend_from_slice(&[8]);
    expected.extend_from_slice(&2u64.to_be_bytes());
    expected.extend_from_slice(b"ab");
    expected.extend_from_slice(&1u64.to_be_bytes());
    expected.extend_from_slice(b"p");
    assert_eq!(m, expected);
}

#[test]
fn signature_from_another_coordinator_is_refused() {
    let coord = KeyPair::generate();
    let other = KeyPair::generate();
    let w = KeyPair::generate().public().0;
    let sig = sign_enrollment_request(&coord, &w, "proof", "gpu");
    assert!(!verify_enrollment_request_signature(&other.public().0, &w, "gpu", "proof", &sig));
    assert!(!verify_enrollment_request_signature(&[1u8; 3], &w, "gpu", "proof", &sig));
    assert!(!verify_enrollment_request_signature(&coord.public().0, &w, "gpu", "proof", "!!"));
}

#[test]
fn enroll_error_messages() {
    assert_eq!(EnrollError::Code("bad".into()).message(), "code: bad");
    assert_eq!(EnrollError::Egress("x".into()).message(), "egress: x");
    assert_eq!(
        EnrollError::Http("503".into()).message(),
        "http enrollment failed: 503"
    );
    assert_eq!(
        EnrollError::Rejected("no".into()).message(),
        "worker rejected enrollment: no"
    );
    assert_eq!(EnrollError::Resolve("h".into()).message(), "resolve host: h");
    assert_eq!(
        ResolveError::Host("nowhere".into()).message(),
        "could not resolve host 'nowhere'"
    );
}

#[test]
fn parses_valid_post() {
    let raw = b"POST /v1/enroll/complete HTTP/1.1\r\nHost: x\r\nContent-Length: 2\r\n\r\n{}";
    assert!(matches!(parse_http_post_json(raw), ParseResult::Complete(_)));
}

#[test]
fn rejects_wrong_path() {
    let raw = b"POST /v1/other HTTP/1.1\r\nContent-Length: 2\r\n\r\n{}";
    assert!(matches!(parse_http_post_json(raw), ParseResult::Invalid));
}

#[test]
fn rejects_missing_content_length() {
    let raw = b"POST /v1/enroll/complete HTTP/1.1\r\nHost: x\r\n\r\n{}";
    assert!(matches!(parse_http_post_json(raw), ParseResult::Invalid));
}

#[test]
fn incomplete_until_body_arrives() {
    let partial = b"POST /v1/enroll/complete HTTP/1.1\r\nContent-Length: 2\r\n\r\n";
    assert!(matches!(parse_http_post_json(partial), ParseResult::Incomplete));
    let mut full = partial.to_vec();
    full.extend_from_slice(b"{}");
    assert!(matches!(parse_http_post_json(&full), ParseResult::Complete(_)));
}

#[test]
fn rejects_truncated_body() {
    let raw = b"POST /v1/enroll/complete HTTP/1.1\r\nContent-Length: 10\r\n\r\n{}";
    assert!(matches!(parse_http_post_json(raw), ParseResult::Incomplete));
}

#[test]
fn http_framing_edge_cases() {
    let get = b"GET /v1/enroll/complete HTTP/1.1\r\nContent-Length: 2\r\n\r\n{}";
    assert!(matches!(parse_http_post_json(get), ParseResult::Invalid));
    let not_json = b"POST /v1/enroll/complete HTTP/1.1\r\ncontent-length: 2\r\n\r\n{x";
    assert!(matches!(parse_http_post_json(not_json), ParseResult::Invalid));
    let no_headers_end = b"POST /v1/enroll/complete HTTP/1.1\r\nContent-Length: 2\r\n";
    assert!(matches!(parse_http_post_json(no_headers_end), ParseResult::Incomplete));
    assert_eq!(status_reason(200), "OK");
    assert_eq!(status_reason(403), "Forbidden");
    assert_eq!(status_reason(500), "Error");
}

#[test]
fn response_text_frames_status_and_body() {
    let body = "{\"ok\":true}";
    assert_eq!(
        http_response_text(200, body),
        "HTTP/1.1 200 OK\r\nContent-Type: application/json\r\nContent-Length: 11\r\nConnection: close\r\n\r\n{\"ok\":true}"
    );
    let r = http_response_text(409, "é");
    assert!(r.starts_with("HTTP/1.1 409 Conflict\r\n"));
    assert!(r.contains("Content-Length: 2\r\n"));
    assert!(http_response_text(500, "").starts_with("HTTP/1.1 500 Error\r\n"));
}

#[test]
fn reader_steps_follow_the_parse() {
    let full: &[u8] = b"POST /v1/enroll/complete HTTP/1.1\r\nContent-Length: 2\r\n\r\n{}";
    assert!(matches!(after_chunk(full), ReadStep::Done(_)));
    assert!(matches!(after_chunk(&full[..full.len() - 1]), ReadStep::More));
    assert!(matches!(after_chunk(b"GET / HTTP/1.1\r\n\r\n"), ReadStep::Fail));
    let huge = vec![b'a'; 65537];
    assert!(matches!(after_chunk(&huge), ReadStep::Fail));
    assert!(at_end_of_stream(full).is_some());
    assert!(at_end_of_stream(&full[..full.len() - 1]).is_none());
}

use lokai_engine::enroll::handshake::normalize_user_code;

#[test]
fn user_code_is_trimmed_and_prefixed_once() {
    assert_eq!(normalize_user_code("  abc123 \n", "lk1-"), "lk1-abc123");
    assert_eq!(normalize_user_code("lk1-abc123", "lk1-"), "lk1-abc123");
    assert_eq!(normalize_user_code("\tlk1-x ", "lk1-"), "lk1-x");
    assert_eq!(normalize_user_code("", "lk1-"), "lk1-");
}
