//! Keys and the cryptographic primitives of enrollment: Ed25519 signatures,
//! HMAC-SHA256 proofs, URL-safe base64 and constant-time comparison. Each
//! primitive is a call into its crate, named and stated below.
use ed25519_dalek::Signer;
use hmac::Mac;
use vstd::prelude::*;

verus! {

/// Public key of an Ed25519 signer, in its 32-byte encoding.
#[derive(Debug)]
pub struct PublicKeyBytes(pub Vec<u8>);

/// The public key `ed25519-dalek` derives from a 32-byte secret seed.
pub uninterp spec fn ed25519_public(seed: Seq<u8>) -> Seq<u8>;

/// The signature `ed25519-dalek` makes of `msg` with the key of `seed`
/// (Ed25519 signing is deterministic).
pub uninterp spec fn ed25519_signature(seed: Seq<u8>, msg: Seq<u8>) -> Seq<u8>;

/// Whether `VerifyingKey::verify_strict` accepts `sig` over `msg` for the
/// public key `pk`.
pub uninterp spec fn ed25519_accepts(pk: Seq<u8>, msg: Seq<u8>, sig: Seq<u8>) -> bool;

/// The error text `VerifyingKey::try_from` gives for bytes that are not a
/// public key, or `None` for a key it accepts.
pub uninterp spec fn ed25519_key_error(pk: Seq<u8>) -> Option<Seq<char>>;

/// HMAC-SHA256 of `msg` under `key`.
pub uninterp spec fn hmac_sha256_tag(key: Seq<u8>, msg: Seq<u8>) -> Seq<u8>;

/// The URL-safe, unpadded base64 text of `bytes`.
pub uninterp spec fn base64url_text(bytes: Seq<u8>) -> Seq<char>;

/// The bytes the URL-safe, unpadded base64 decoder reads from `text`, when
/// it accepts it.
pub uninterp spec fn base64url_bytes(text: Seq<char>) -> Option<Seq<u8>>;

/// A fresh secret seed of 32 bytes from the operating system's generator.
/// Nothing is stated of the bytes beyond their number.
#[verifier::external_body]
fn random_seed() -> (r: Vec<u8>)
    ensures
        r@.len() == 32,
{
    let mut seed = [0u8; 32];
    rand::RngCore::fill_bytes(&mut rand::rngs::OsRng, &mut seed);
    seed.to_vec()
}

/// `SigningKey::from_bytes(seed).verifying_key().to_bytes()`: the 32-byte
/// public key of the seed, which `VerifyingKey::try_from` accepts.
#[verifier::external_body]
fn public_of_seed(seed: &[u8]) -> (r: Vec<u8>)
    requires
        seed@.len() == 32,
    ensures
        r@ == ed25519_public(seed@),
        r@.len() == 32,
        ed25519_key_error(r@) is None,
{
    let bytes: [u8; 32] = seed.try_into().unwrap();
    ed25519_dalek::SigningKey::from_bytes(&bytes).verifying_key().to_bytes().to_vec()
}

/// `SigningKey::from_bytes(seed).sign(msg).to_bytes()`: the 64-byte signature,
/// which `verify_strict` accepts under the seed's public key.
#[verifier::external_body]
fn sign_with_seed(seed: &[u8], msg: &[u8]) -> (r: Vec<u8>)
    requires
        seed@.len() == 32,
    ensures
        r@ == ed25519_signature(seed@, msg@),
        r@.len() == 64,
        ed25519_accepts(ed25519_public(seed@), msg@, r@),
{
    let bytes: [u8; 32] = seed.try_into().unwrap();
    ed25519_dalek::SigningKey::from_bytes(&bytes).sign(msg).to_bytes().to_vec()
}

/// `VerifyingKey::try_from(pk)`: `None` when the bytes are a public key, else
/// the error's text. Only keys of 32 bytes are accepted.
#[verifier::external_body]
pub(crate) fn key_error(pk: &[u8]) -> (r: Option<String>)
    ensures
        match r {
            Some(e) => ed25519_key_error(pk@) == Some(e@),
            None => ed25519_key_error(pk@) is None,
        },
        r is None ==> pk@.len() == 32,
{
    match ed25519_dalek::VerifyingKey::try_from(pk) {
        Ok(_) => None,
        Err(e) => Some(e.to_string()),
    }
}

/// `VerifyingKey::verify_strict` of a 64-byte signature (as
/// `Signature::from_slice` reads it) under an accepted public key.
#[verifier::external_body]
pub(crate) fn verify_strict(pk: &[u8], msg: &[u8], sig: &[u8]) -> (r: bool)
    requires
        ed25519_key_error(pk@) is None,
        sig@.len() == 64,
    ensures
        r == ed25519_accepts(pk@, msg@, sig@),
{
    match (ed25519_dalek::VerifyingKey::try_from(pk), ed25519_dalek::Signature::from_slice(sig)) {
        (Ok(key), Ok(sig)) => key.verify_strict(msg, &sig).is_ok(),
        _ => false,
    }
}

/// `Hmac::<Sha256>::new_from_slice(key)` (which takes keys of any length),
/// one `update(msg)`, `finalize()`: the 32-byte tag.
#[verifier::external_body]
pub(crate) fn hmac_sha256(key: &[u8], msg: &[u8]) -> (r: Vec<u8>)
    ensures
        r@ == hmac_sha256_tag(key@, msg@),
        r@.len() == 32,
{
    let mut mac = hmac::Hmac::<sha2::Sha256>::new_from_slice(key).expect("HMAC takes any key length");
    mac.update(msg);
    mac.finalize().into_bytes().to_vec()
}

/// `URL_SAFE_NO_PAD.encode(bytes)`; the decoder reads the text back as the
/// same bytes.
#[verifier::external_body]
pub(crate) fn base64url_encode(bytes: &[u8]) -> (r: String)
    ensures
        r@ == base64url_text(bytes@),
        base64url_bytes(r@) == Some(bytes@),
{
    base64::Engine::encode(&base64::engine::general_purpose::URL_SAFE_NO_PAD, bytes)
}

/// `URL_SAFE_NO_PAD.decode(text)`, `None` where it fails.
#[verifier::external_body]
pub(crate) fn base64url_decode(text: &str) -> (r: Option<Vec<u8>>)
    ensures
        match r {
            Some(b) => base64url_bytes(text@) == Some(b@),
            None => base64url_bytes(text@) is None,
        },
{
    base64::Engine::decode(&base64::engine::general_purpose::URL_SAFE_NO_PAD, text).ok()
}

/// `ConstantTimeEq::ct_eq` on byte slices: true exactly when they are equal.
#[verifier::external_body]
pub(crate) fn ct_eq(a: &[u8], b: &[u8]) -> (r: bool)
    ensures
        r == (a@ == b@),
{
    subtle::ConstantTimeEq::ct_eq(a, b).into()
}

/// An Ed25519 key pair, held as its secret seed.
pub struct KeyPair {
    seed: Vec<u8>,
}

impl KeyPair {
    #[verifier::type_invariant]
    spec fn seed_len(self) -> bool {
        self.seed@.len() == 32
    }

    pub closed spec fn seed_view(self) -> Seq<u8> {
        self.seed@
    }

    /// A key pair from a fresh random seed.
    pub fn generate() -> (r: KeyPair)
        ensures
            r.seed_view().len() == 32,
    {
        KeyPair { seed: random_seed() }
    }

    /// The key pair of a 32-byte seed.
    pub fn from_seed(seed: Vec<u8>) -> (r: Option<KeyPair>)
        ensures
            match r {
                Some(k) => seed@.len() == 32 && k.seed_view() == seed@,
                None => seed@.len() != 32,
            },
    {
        if seed.len() == 32 {
            Some(KeyPair { seed })
        } else {
            None
        }
    }

    /// The public half.
    pub fn public(&self) -> (r: PublicKeyBytes)
        ensures
            r.0@ == ed25519_public(self.seed_view()),
            ed25519_key_error(r.0@) is None,
    {
        proof {
            use_type_invariant(self);
        }
        PublicKeyBytes(public_of_seed(self.seed.as_slice()))
    }

    /// Sign `msg`.
    pub fn sign(&self, msg: &[u8]) -> (r: Vec<u8>)
        ensures
            r@ == ed25519_signature(self.seed_view(), msg@),
            r@.len() == 64,
            ed25519_accepts(ed25519_public(self.seed_view()), msg@, r@),
    {
        proof {
            use_type_invariant(self);
        }
        sign_with_seed(self.seed.as_slice(), msg)
    }
}

} // verus!
