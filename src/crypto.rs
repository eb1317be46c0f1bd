//! Keys, signatures and the byte encodings they travel in.
//!
//! Keys live on the secp256k1 curve. A public key is held as its compressed
//! SEC1 encoding (33 bytes), a secret key as its 32-byte big-endian scalar.
use vstd::prelude::*;

use k256::elliptic_curve::sec1::ToEncodedPoint;
use k256::ecdsa::signature::Signer;
use k256::ecdsa::signature::Verifier;
use base64::Engine;

verus! {

/// The eight big-endian bytes of `x`.
pub open spec fn be_bytes_spec(x: u64) -> Seq<u8> {
    seq![
        (x >> 56u64) as u8,
        (x >> 48u64) as u8,
        (x >> 40u64) as u8,
        (x >> 32u64) as u8,
        (x >> 24u64) as u8,
        (x >> 16u64) as u8,
        (x >> 8u64) as u8,
        x as u8,
    ]
}

/// Writes `x` as eight big-endian bytes.
pub fn be_bytes(x: u64) -> (r: Vec<u8>)
    ensures
        r@ == be_bytes_spec(x),
{
    let r = vec![
        (x >> 56u64) as u8,
        (x >> 48u64) as u8,
        (x >> 40u64) as u8,
        (x >> 32u64) as u8,
        (x >> 24u64) as u8,
        (x >> 16u64) as u8,
        (x >> 8u64) as u8,
        x as u8,
    ];
    assert(r@ =~= be_bytes_spec(x));
    r
}

/// Whether 32 bytes are a valid secp256k1 secret scalar (non-zero, below the
/// group order), as `k256::SecretKey::from_bytes` decides.
pub uninterp spec fn secret_key_valid(bytes: Seq<u8>) -> bool;

/// The compressed SEC1 encoding of the public key of a secret scalar.
pub uninterp spec fn public_key_of(secret: Seq<u8>) -> Seq<u8>;

/// What `k256::PublicKey::from_sec1_bytes` makes of some bytes, written back
/// in compressed SEC1 form; `None` where the bytes are no point of the curve.
pub uninterp spec fn sec1_compressed(bytes: Seq<u8>) -> Option<Seq<u8>>;

/// Whether `sig` (64 bytes `r || s`) is an ECDSA/SHA-256 signature of `msg`
/// under the key whose SEC1 encoding is `public`, as k256 verifies it.
pub uninterp spec fn signature_valid(public: Seq<u8>, msg: Seq<u8>, sig: Seq<u8>) -> bool;

/// The ECDSA/SHA-256 signature k256 makes of `msg` with a secret scalar:
/// 64 bytes `r || s`, its nonce drawn by RFC 6979 from the key and the
/// message, so the same inputs give the same signature.
pub uninterp spec fn signature_of(secret: Seq<u8>, msg: Seq<u8>) -> Seq<u8>;

/// The standard, padded base64 text of some bytes.
pub uninterp spec fn base64_of(bytes: Seq<u8>) -> Seq<char>;

/// What standard base64 decoding makes of a text; `None` where the text is
/// not canonical base64.
pub uninterp spec fn base64_decoded(text: Seq<char>) -> Option<Seq<u8>>;

/// The 32-byte x-coordinate of the ECDH point of a secret scalar and a
/// public key.
pub uninterp spec fn shared_secret(secret: Seq<u8>, public: Seq<u8>) -> Seq<u8>;

/// Relies on `rand::RngCore::fill_bytes` with the operating system's random
/// source (`rand::rngs::OsRng`): `n` bytes, of which nothing else is
/// promised.
#[verifier::external_body]
pub(crate) fn random_bytes(n: usize) -> (r: Vec<u8>)
    ensures
        r@.len() == n,
{
    let mut bytes = vec![0u8; n];
    rand::RngCore::fill_bytes(&mut rand::rngs::OsRng, &mut bytes);
    bytes
}

/// A random 64-bit number: eight random bytes read big-endian. Used for
/// proof seeds and message ids.
pub fn random_u64() -> u64 {
    let b = random_bytes(8);
    ((b[0] as u64) << 56u64) | ((b[1] as u64) << 48u64) | ((b[2] as u64) << 40u64) | ((b[3] as u64)
        << 32u64) | ((b[4] as u64) << 24u64) | ((b[5] as u64) << 16u64) | ((b[6] as u64) << 8u64)
        | (b[7] as u64)
}

/// Relies on `k256::SecretKey::random` with the operating system's random
/// source: the key drawn is valid, and `to_bytes` gives its 32 bytes.
#[verifier::external_body]
fn random_secret_bytes() -> (r: Vec<u8>)
    ensures
        r@.len() == 32,
        secret_key_valid(r@),
{
    k256::SecretKey::random(&mut rand::rngs::OsRng).to_bytes().to_vec()
}

/// Relies on `k256::SecretKey::from_bytes`: it accepts exactly the valid
/// scalars.
#[verifier::external_body]
#[allow(deprecated)]
fn check_secret_bytes(bytes: &[u8]) -> (r: bool)
    requires
        bytes@.len() == 32,
    ensures
        r == secret_key_valid(bytes@),
{
    k256::SecretKey::from_bytes(k256::FieldBytes::from_slice(bytes)).is_ok()
}

/// Relies on `k256::SecretKey::public_key` and `to_encoded_point(true)`: the
/// compressed encoding of the public key, which parses back to itself.
#[verifier::external_body]
#[allow(deprecated)]
fn derive_public_bytes(secret: &[u8]) -> (r: Vec<u8>)
    requires
        secret@.len() == 32,
        secret_key_valid(secret@),
    ensures
        r@ == public_key_of(secret@),
        sec1_compressed(r@) == Some(r@),
{
    let key = k256::SecretKey::from_bytes(k256::FieldBytes::from_slice(secret)).unwrap();
    key.public_key().to_encoded_point(true).as_bytes().to_vec()
}

/// Relies on `k256::PublicKey::from_sec1_bytes`, written back with
/// `to_encoded_point(true)`: 33 bytes that parse back to themselves.
#[verifier::external_body]
fn parse_sec1_bytes(bytes: &[u8]) -> (r: Option<Vec<u8>>)
    ensures
        match r {
            Some(v) => sec1_compressed(bytes@) == Some(v@) && sec1_compressed(v@) == Some(v@)
                && v@.len() == 33,
            None => sec1_compressed(bytes@) is None,
        },
{
    match k256::PublicKey::from_sec1_bytes(bytes) {
        Ok(key) => Some(key.to_encoded_point(true).as_bytes().to_vec()),
        Err(_) => None,
    }
}

/// Relies on `k256::ecdsa::SigningKey::sign`, which signs deterministically
/// (RFC 6979): a signature made with a secret key verifies under its public
/// key.
#[verifier::external_body]
#[allow(deprecated)]
fn sign_bytes(secret: &[u8], msg: &[u8]) -> (r: Vec<u8>)
    requires
        secret@.len() == 32,
        secret_key_valid(secret@),
    ensures
        r@ == signature_of(secret@, msg@),
        signature_valid(public_key_of(secret@), msg@, r@),
{
    let key = k256::ecdsa::SigningKey::from_bytes(k256::FieldBytes::from_slice(secret)).unwrap();
    let sig: k256::ecdsa::Signature = key.sign(msg);
    sig.to_bytes().to_vec()
}

/// Relies on `k256::ecdsa::VerifyingKey::verify`; a key or signature that
/// does not parse verifies nothing.
#[verifier::external_body]
fn verify_bytes(public: &[u8], msg: &[u8], sig: &[u8]) -> (r: bool)
    ensures
        r == signature_valid(public@, msg@, sig@),
{
    let key = match k256::ecdsa::VerifyingKey::from_sec1_bytes(public) {
        Ok(key) => key,
        Err(_) => return false,
    };
    match k256::ecdsa::Signature::from_slice(sig) {
        Ok(sig) => key.verify(msg, &sig).is_ok(),
        Err(_) => false,
    }
}

/// A character of the standard base64 alphabet, or its padding `=`.
pub open spec fn base64_char(c: char) -> bool {
    ('A' <= c && c <= 'Z') || ('a' <= c && c <= 'z') || ('0' <= c && c <= '9') || c == '+' || c
        == '/' || c == '='
}

/// Relies on `base64::engine::general_purpose::STANDARD.encode`: text in
/// the standard alphabet with `=` padding, which decodes back to the bytes.
#[verifier::external_body]
pub(crate) fn encode_base64(bytes: &[u8]) -> (r: String)
    ensures
        r@ == base64_of(bytes@),
        base64_decoded(r@) == Some(bytes@),
        forall|i: int| 0 <= i < r@.len() ==> base64_char(#[trigger] r@[i]),
{
    base64::engine::general_purpose::STANDARD.encode(bytes)
}

/// Relies on `base64::engine::general_purpose::STANDARD.decode`.
#[verifier::external_body]
pub(crate) fn decode_base64(text: &str) -> (r: Option<Vec<u8>>)
    ensures
        match r {
            Some(v) => base64_decoded(text@) == Some(v@),
            None => base64_decoded(text@) is None,
        },
{
    base64::engine::general_purpose::STANDARD.decode(text).ok()
}

/// Relies on `k256::ecdh::diffie_hellman` and `raw_secret_bytes`: 32 bytes,
/// the same from either side of the exchange.
#[verifier::external_body]
#[allow(deprecated)]
fn ecdh_bytes(secret: &[u8], public: &[u8]) -> (r: Vec<u8>)
    requires
        secret@.len() == 32,
        secret_key_valid(secret@),
        sec1_compressed(public@) == Some(public@),
    ensures
        r@ == shared_secret(secret@, public@),
        r@.len() == 32,
        forall|other: Seq<u8>|
            other.len() == 32 && secret_key_valid(other) && public@ == public_key_of(other)
                ==> r@ == #[trigger] shared_secret(other, public_key_of(secret@)),
{
    let key = k256::SecretKey::from_bytes(k256::FieldBytes::from_slice(secret)).unwrap();
    let public = k256::PublicKey::from_sec1_bytes(public).unwrap();
    let shared = k256::ecdh::diffie_hellman(key.to_nonzero_scalar(), public.as_affine());
    shared.raw_secret_bytes().to_vec()
}

/// Failures of key and signature handling.
#[derive(Debug, Clone, Copy, PartialEq, Eq, Hash)]
pub enum CryptoError {
    /// The text is not canonical base64.
    Base64Decode,
    /// The bytes are not a point of the curve.
    InvalidPublicKey,
    /// The bytes are not a valid secret scalar.
    InvalidSecretKey,
}

/// What reading a public key from base64 `text` gives: the key whose SEC1
/// encoding the text holds, or why there is none.
pub open spec fn key_from_base64(text: Seq<char>, r: Result<PublicKey, CryptoError>) -> bool {
    match base64_decoded(text) {
        None => r == Err::<PublicKey, CryptoError>(CryptoError::Base64Decode),
        Some(b) => match sec1_compressed(b) {
            Some(k) => r matches Ok(p) && p@ == k,
            None => r == Err::<PublicKey, CryptoError>(CryptoError::InvalidPublicKey),
        },
    }
}

/// A secp256k1 public key, held as its compressed SEC1 encoding.
#[derive(Debug, Eq, Hash)]
pub struct PublicKey {
    bytes: Vec<u8>,
}

/// Whether two byte strings are equal.
pub fn bytes_eq(a: &[u8], b: &[u8]) -> (r: bool)
    ensures
        r == (a@ == b@),
{
    if a.len() != b.len() {
        return false;
    }
    let mut i: usize = 0;
    while i < a.len()
        invariant
            a@.len() == b@.len(),
            i <= a@.len(),
            a@.subrange(0, i as int) == b@.subrange(0, i as int),
        decreases a@.len() - i,
    {
        if a[i] != b[i] {
            return false;
        }
        i += 1;
        assert(a@.subrange(0, i as int) =~= a@.subrange(0, i - 1).push(a@[i - 1]));
        assert(b@.subrange(0, i as int) =~= b@.subrange(0, i - 1).push(b@[i - 1]));
    }
    assert(a@ =~= a@.subrange(0, i as int));
    assert(b@ =~= b@.subrange(0, i as int));
    true
}

impl PartialEq for PublicKey {
    fn eq(&self, other: &PublicKey) -> (r: bool) {
        bytes_eq(self.bytes.as_slice(), other.bytes.as_slice())
    }
}

impl vstd::std_specs::cmp::PartialEqSpecImpl for PublicKey {
    open spec fn obeys_eq_spec() -> bool {
        true
    }

    open spec fn eq_spec(&self, other: &PublicKey) -> bool {
        self@ == other@
    }
}

impl View for PublicKey {
    type V = Seq<u8>;

    closed spec fn view(&self) -> Seq<u8> {
        self.bytes@
    }
}

/// A compressed SEC1 encoding of a point of the curve.
pub open spec fn public_key_encoding(b: Seq<u8>) -> bool {
    sec1_compressed(b) == Some(b)
}

impl Clone for PublicKey {
    fn clone(&self) -> (r: PublicKey)
        ensures
            r@ == self@,
    {
        proof {
            use_type_invariant(self);
        }
        PublicKey { bytes: self.bytes.clone() }
    }
}

impl PublicKey {
    #[verifier::type_invariant]
    spec fn inv(self) -> bool {
        public_key_encoding(self.bytes@)
    }

    /// Reads a key from its SEC1 encoding, compressed or not. The bytes of
    /// a key read back give the same key.
    pub fn from_bytes(bytes: &[u8]) -> (r: Result<PublicKey, CryptoError>)
        ensures
            public_key_encoding(bytes@) ==> (r matches Ok(k) && k@ == bytes@),
            match r {
                Ok(k) => sec1_compressed(bytes@) == Some(k@),
                Err(e) => sec1_compressed(bytes@) is None && e == CryptoError::InvalidPublicKey,
            },
    {
        match parse_sec1_bytes(bytes) {
            Some(v) => Ok(PublicKey { bytes: v }),
            None => Err(CryptoError::InvalidPublicKey),
        }
    }

    /// The compressed SEC1 encoding of the key. Read back with `from_bytes`
    /// it gives the same key.
    pub fn to_bytes(&self) -> (r: Vec<u8>)
        ensures
            r@ == self@,
            sec1_compressed(r@) == Some(self@),
    {
        proof {
            use_type_invariant(self);
        }
        self.bytes.clone()
    }

    /// The key's address text: base64 of its compressed encoding.
    pub fn to_base64(&self) -> (r: String)
        ensures
            r@ == base64_of(self@),
            base64_decoded(r@) == Some(self@),
            forall|i: int| 0 <= i < r@.len() ==> base64_char(#[trigger] r@[i]),
    {
        encode_base64(self.bytes.as_slice())
    }

    /// Reads a key from the base64 of its SEC1 encoding.
    pub fn from_base64(text: &str) -> (r: Result<PublicKey, CryptoError>)
        ensures
            key_from_base64(text@, r),
    {
        match decode_base64(text) {
            Some(bytes) => Self::from_bytes(bytes.as_slice()),
            None => Err(CryptoError::Base64Decode),
        }
    }

    /// Whether `sign` is this key's signature of `data`.
    pub fn verify_signature(&self, data: &[u8], sign: &[u8]) -> (r: bool)
        ensures
            r == signature_valid(self@, data@, sign@),
    {
        verify_bytes(self.bytes.as_slice(), data, sign)
    }
}

/// A secp256k1 secret key, held as its 32-byte big-endian scalar.
#[derive(Debug, PartialEq, Eq, Hash)]
pub struct SecretKey {
    bytes: Vec<u8>,
}

impl View for SecretKey {
    type V = Seq<u8>;

    closed spec fn view(&self) -> Seq<u8> {
        self.bytes@
    }
}

/// What a secret key holds: a valid 32-byte scalar.
pub open spec fn secret_key_encoding(b: Seq<u8>) -> bool {
    b.len() == 32 && secret_key_valid(b)
}

impl Clone for SecretKey {
    fn clone(&self) -> (r: SecretKey)
        ensures
            r@ == self@,
    {
        proof {
            use_type_invariant(self);
        }
        SecretKey { bytes: self.bytes.clone() }
    }
}

impl SecretKey {
    #[verifier::type_invariant]
    spec fn inv(self) -> bool {
        secret_key_encoding(self.bytes@)
    }

    /// A fresh key from the operating system's random source.
    pub fn random() -> (r: SecretKey)
        ensures
            secret_key_encoding(r@),
    {
        SecretKey { bytes: random_secret_bytes() }
    }

    /// Reads a key from its 32-byte scalar.
    pub fn from_bytes(bytes: &[u8]) -> (r: Result<SecretKey, CryptoError>)
        ensures
            match r {
                Ok(k) => k@ == bytes@ && secret_key_encoding(bytes@),
                Err(e) => !secret_key_encoding(bytes@) && e == CryptoError::InvalidSecretKey,
            },
    {
        if bytes.len() != 32 {
            return Err(CryptoError::InvalidSecretKey);
        }
        if check_secret_bytes(bytes) {
            let mut v: Vec<u8> = Vec::new();
            let mut i: usize = 0;
            while i < bytes.len()
                invariant
                    i <= bytes@.len(),
                    v@ == bytes@.subrange(0, i as int),
                decreases bytes@.len() - i,
            {
                v.push(bytes[i]);
                i += 1;
            }
            assert(v@ =~= bytes@);
            Ok(SecretKey { bytes: v })
        } else {
            Err(CryptoError::InvalidSecretKey)
        }
    }

    /// The 32-byte scalar.
    pub fn to_bytes(&self) -> (r: Vec<u8>)
        ensures
            r@ == self@,
            secret_key_encoding(r@),
    {
        proof {
            use_type_invariant(self);
        }
        self.bytes.clone()
    }

    /// The public key that belongs to this secret key.
    pub fn public_key(&self) -> (r: PublicKey)
        ensures
            r@ == public_key_of(self@),
    {
        proof {
            use_type_invariant(self);
        }
        PublicKey { bytes: derive_public_bytes(self.bytes.as_slice()) }
    }

    /// The secret this key shares with the owner of `public`; the owner
    /// computes the same from its own secret key and this key's public key.
    pub fn shared_secret(&self, public: &PublicKey) -> (r: Vec<u8>)
        ensures
            r@ == shared_secret(self@, public@),
            r@.len() == 32,
            forall|other: Seq<u8>|
                secret_key_encoding(other) && public@ == public_key_of(other) ==> r@
                    == #[trigger] shared_secret(other, public_key_of(self@)),
    {
        proof {
            use_type_invariant(self);
            use_type_invariant(public);
        }
        ecdh_bytes(self.bytes.as_slice(), public.bytes.as_slice())
    }

    /// Signs `data`: the result verifies under `self.public_key()`.
    pub fn create_signature(&self, data: &[u8]) -> (r: Vec<u8>)
        ensures
            r@ == signature_of(self@, data@),
            signature_valid(public_key_of(self@), data@, r@),
    {
        proof {
            use_type_invariant(self);
        }
        sign_bytes(self.bytes.as_slice(), data)
    }
}

} // verus!
