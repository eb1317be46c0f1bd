//! The byte transforms a message payload can go through: base58 text,
//! deflate and brotli compression, ChaCha20-Poly1305 and AES-256-GCM
//! sealing. Each is an outside implementation; what the library relies on
//! is that undoing a transform gives back what it was applied to.
use vstd::prelude::*;

use std::io::Read;
use std::io::Write;

use aes_gcm::aead::{Aead, KeyInit};

verus! {

/// What base58 decoding makes of a text; `None` where it is not base58.
pub uninterp spec fn base58_decoded(text: Seq<char>) -> Option<Seq<u8>>;

/// The raw-deflate stream flate2 makes of some bytes at a level.
pub uninterp spec fn deflated(data: Seq<u8>, level: u32) -> Seq<u8>;

/// The brotli stream the brotli crate makes of some bytes at a quality,
/// with a 4096-byte buffer and window 22.
pub uninterp spec fn brotli_compressed(data: Seq<u8>, quality: u32) -> Seq<u8>;

/// What raw-deflate decompression makes of some bytes; `None` where they
/// are no deflate stream.
pub uninterp spec fn deflate_inflated(data: Seq<u8>) -> Option<Seq<u8>>;

/// What brotli decompression makes of some bytes; `None` where they are no
/// brotli stream.
pub uninterp spec fn brotli_decompressed(data: Seq<u8>) -> Option<Seq<u8>>;

/// What ChaCha20-Poly1305 opening gives under a 32-byte key and a 12-byte
/// nonce; `None` where the tag does not check.
pub uninterp spec fn chacha_opened(key: Seq<u8>, nonce: Seq<u8>, sealed: Seq<u8>) -> Option<Seq<u8>>;

/// What AES-256-GCM opening gives under a 32-byte key and a 12-byte nonce;
/// `None` where the tag does not check.
pub uninterp spec fn aes_gcm_opened(key: Seq<u8>, nonce: Seq<u8>, sealed: Seq<u8>) -> Option<Seq<u8>>;

/// Relies on `bs58::encode(..).into_string()`; its text decodes back to the
/// bytes.
#[verifier::external_body]
pub(crate) fn encode_base58(bytes: &[u8]) -> (r: String)
    ensures
        base58_decoded(r@) == Some(bytes@),
{
    bs58::encode(bytes).into_string()
}

/// Relies on `bs58::decode(..).into_vec()`.
#[verifier::external_body]
pub(crate) fn decode_base58(text: &str) -> (r: Option<Vec<u8>>)
    ensures
        match r {
            Some(v) => base58_decoded(text@) == Some(v@),
            None => base58_decoded(text@) is None,
        },
{
    bs58::decode(text).into_vec().ok()
}

/// The longest payload the ciphers seal: AES-256-GCM refuses more than
/// 2^36 bytes, ChaCha20-Poly1305 more than 2^38 - 64.
pub const SEALED_PAYLOAD_MAX: u64 = 68719476736;

/// Relies on `flate2::write::DeflateEncoder` at the given level (0 to 9):
/// the stream inflates back to the data. Writing into a `Vec` does not
/// fail.
#[verifier::external_body]
pub(crate) fn deflate(data: &[u8], level: u32) -> (r: Vec<u8>)
    requires
        level <= 9,
    ensures
        r@ == deflated(data@, level),
        deflate_inflated(r@) == Some(data@),
{
    let mut encoder = flate2::write::DeflateEncoder::new(Vec::new(), flate2::Compression::new(level));
    match encoder.write_all(data) {
        Ok(()) => encoder.finish().unwrap_or_default(),
        Err(_) => Vec::new(),
    }
}

/// Relies on `flate2::read::DeflateDecoder`.
#[verifier::external_body]
pub(crate) fn inflate(data: &[u8]) -> (r: Option<Vec<u8>>)
    ensures
        match r {
            Some(v) => deflate_inflated(data@) == Some(v@),
            None => deflate_inflated(data@) is None,
        },
{
    let mut out = Vec::new();
    match flate2::read::DeflateDecoder::new(data).read_to_end(&mut out) {
        Ok(_) => Some(out),
        Err(_) => None,
    }
}

/// Relies on `brotli::CompressorWriter` at the given quality (0 to 11),
/// window 22: the stream, finished by `into_inner`, decompresses back to
/// the data; the same data and quality give the same stream. Writing into
/// a `Vec` does not fail.
#[verifier::external_body]
pub(crate) fn brotli_compress(data: &[u8], quality: u32) -> (r: Vec<u8>)
    requires
        quality <= 11,
    ensures
        r@ == brotli_compressed(data@, quality),
        brotli_decompressed(r@) == Some(data@),
{
    let mut writer = brotli::CompressorWriter::new(Vec::new(), 4096, quality, 22);
    match writer.write_all(data) {
        Ok(()) => writer.into_inner(),
        Err(_) => Vec::new(),
    }
}

/// Relies on `brotli::Decompressor`.
#[verifier::external_body]
pub(crate) fn brotli_decompress(data: &[u8]) -> (r: Option<Vec<u8>>)
    ensures
        match r {
            Some(v) => brotli_decompressed(data@) == Some(v@),
            None => brotli_decompressed(data@) is None,
        },
{
    let mut out = Vec::new();
    match brotli::Decompressor::new(data, 4096).read_to_end(&mut out) {
        Ok(_) => Some(out),
        Err(_) => None,
    }
}

/// Relies on `chacha20poly1305::ChaCha20Poly1305::encrypt`: the sealed bytes open back to
/// the plaintext under the same key and nonce. It fails only on plaintexts
/// longer than `SEALED_PAYLOAD_MAX`.
#[verifier::external_body]
pub(crate) fn chacha_seal(key: &[u8], nonce: &[u8], plaintext: &[u8]) -> (r: Vec<u8>)
    requires
        key@.len() == 32,
        nonce@.len() == 12,
        plaintext@.len() <= SEALED_PAYLOAD_MAX,
    ensures
        chacha_opened(key@, nonce@, r@) == Some(plaintext@),
{
    let cipher = chacha20poly1305::ChaCha20Poly1305::new(chacha20poly1305::Key::from_slice(key));
    cipher.encrypt(chacha20poly1305::Nonce::from_slice(nonce), plaintext).unwrap_or_default()
}

/// Relies on `chacha20poly1305::ChaCha20Poly1305::decrypt`.
#[verifier::external_body]
pub(crate) fn chacha_open(key: &[u8], nonce: &[u8], sealed: &[u8]) -> (r: Option<Vec<u8>>)
    requires
        key@.len() == 32,
        nonce@.len() == 12,
    ensures
        match r {
            Some(v) => chacha_opened(key@, nonce@, sealed@) == Some(v@),
            None => chacha_opened(key@, nonce@, sealed@) is None,
        },
{
    let cipher = chacha20poly1305::ChaCha20Poly1305::new(chacha20poly1305::Key::from_slice(key));
    cipher.decrypt(chacha20poly1305::Nonce::from_slice(nonce), sealed).ok()
}

/// Relies on `aes_gcm::Aes256Gcm::encrypt`: the sealed bytes open back to
/// the plaintext under the same key and nonce. It fails only on plaintexts
/// longer than `SEALED_PAYLOAD_MAX`.
#[verifier::external_body]
pub(crate) fn aes_gcm_seal(key: &[u8], nonce: &[u8], plaintext: &[u8]) -> (r: Vec<u8>)
    requires
        key@.len() == 32,
        nonce@.len() == 12,
        plaintext@.len() <= SEALED_PAYLOAD_MAX,
    ensures
        aes_gcm_opened(key@, nonce@, r@) == Some(plaintext@),
{
    let cipher = aes_gcm::Aes256Gcm::new(aes_gcm::Key::<aes_gcm::Aes256Gcm>::from_slice(key));
    cipher.encrypt(aes_gcm::Nonce::from_slice(nonce), plaintext).unwrap_or_default()
}

/// Relies on `aes_gcm::Aes256Gcm::decrypt`.
#[verifier::external_body]
pub(crate) fn aes_gcm_open(key: &[u8], nonce: &[u8], sealed: &[u8]) -> (r: Option<Vec<u8>>)
    requires
        key@.len() == 32,
        nonce@.len() == 12,
    ensures
        match r {
            Some(v) => aes_gcm_opened(key@, nonce@, sealed@) == Some(v@),
            None => aes_gcm_opened(key@, nonce@, sealed@) is None,
        },
{
    let cipher = aes_gcm::Aes256Gcm::new(aes_gcm::Key::<aes_gcm::Aes256Gcm>::from_slice(key));
    cipher.decrypt(aes_gcm::Nonce::from_slice(nonce), sealed).ok()
}

} // verus!
