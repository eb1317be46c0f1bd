//! Messages between clients, and the records an inbox keeps of them.
//!
//! A message carries its payload as text together with the sender's
//! signature of the plain payload. Its encoding names the text scheme, the
//! compression and the encryption applied, and is written as a descriptor
//! such as `base64/deflate/chacha20-poly1305`.
use vstd::prelude::*;
use vstd::string::*;

use vstd::slice::{slice_subrange, slice_to_vec};

use crate::codec::{
    aes_gcm_open, aes_gcm_opened, aes_gcm_seal, base58_decoded, brotli_compress, brotli_compressed,
    brotli_decompress, brotli_decompressed, deflated, chacha_open, chacha_opened, chacha_seal, decode_base58, deflate,
    deflate_inflated, encode_base58, inflate, SEALED_PAYLOAD_MAX,
};
use crate::crypto::{
    PublicKey, SecretKey, base64_decoded, decode_base64, encode_base64, public_key_of, random_bytes,
    secret_key_encoding, shared_secret, signature_valid,
};
use crate::text::str_eq;
use crate::types::Sender;

verus! {

#[derive(Debug, Clone, Copy, PartialEq, Eq, Hash, Structural)]
pub enum TextEncoding {
    Base64,
    Base58,
}

#[derive(Debug, Clone, Copy, PartialEq, Eq, Hash, Structural)]
pub enum TextCompression {
    Deflate,
    Brotli,
}

#[derive(Debug, Clone, Copy, PartialEq, Eq, Hash, Structural)]
pub enum TextEncryption {
    ChaCha20Poly1305,
    Aes256Gcm,
}

/// How hard a compressor works.
#[derive(Debug, Clone, Copy, PartialEq, Eq, Hash, Structural)]
pub enum CompressionLevel {
    Fast,
    Balanced,
    Quality,
}

impl CompressionLevel {
    pub fn default() -> (r: CompressionLevel)
        ensures
            r == CompressionLevel::Balanced,
    {
        CompressionLevel::Balanced
    }
}

/// The transforms a message's payload went through.
#[derive(Debug, Clone, Copy, PartialEq, Eq, Hash, Structural)]
pub struct MessageEncoding {
    pub encoding: TextEncoding,
    pub compression: Option<TextCompression>,
    pub encryption: Option<TextEncryption>,
}

pub open spec fn encoding_name(e: TextEncoding) -> Seq<char> {
    match e {
        TextEncoding::Base64 => "base64"@,
        TextEncoding::Base58 => "base58"@,
    }
}

pub open spec fn compression_name(c: TextCompression) -> Seq<char> {
    match c {
        TextCompression::Deflate => "deflate"@,
        TextCompression::Brotli => "brotli"@,
    }
}

pub open spec fn encryption_name(e: TextEncryption) -> Seq<char> {
    match e {
        TextEncryption::ChaCha20Poly1305 => "chacha20-poly1305"@,
        TextEncryption::Aes256Gcm => "aes256-gcm"@,
    }
}

/// The descriptor of an encoding: the text scheme, then `/compression` and
/// `/encryption` where they are used.
pub open spec fn descriptor(e: MessageEncoding) -> Seq<char> {
    encoding_name(e.encoding) + match e.compression {
        Some(c) => "/"@ + compression_name(c),
        None => Seq::empty(),
    } + match e.encryption {
        Some(x) => "/"@ + encryption_name(x),
        None => Seq::empty(),
    }
}

/// The encoding numbered `k` of the eighteen there are.
pub open spec fn nth_encoding(k: int) -> MessageEncoding {
    MessageEncoding {
        encoding: if k / 9 == 0 { TextEncoding::Base64 } else { TextEncoding::Base58 },
        compression: if (k / 3) % 3 == 0 {
            None
        } else if (k / 3) % 3 == 1 {
            Some(TextCompression::Deflate)
        } else {
            Some(TextCompression::Brotli)
        },
        encryption: if k % 3 == 0 {
            None
        } else if k % 3 == 1 {
            Some(TextEncryption::ChaCha20Poly1305)
        } else {
            Some(TextEncryption::Aes256Gcm)
        },
    }
}

/// Different encodings have different descriptors.
pub proof fn lemma_descriptor_injective(a: MessageEncoding, b: MessageEncoding)
    requires
        descriptor(a) == descriptor(b),
    ensures
        a == b,
{
    reveal_strlit("base64");
    reveal_strlit("base58");
    reveal_strlit("/");
    reveal_strlit("deflate");
    reveal_strlit("brotli");
    reveal_strlit("chacha20-poly1305");
    reveal_strlit("aes256-gcm");
    let d = descriptor(a);
    assert(d[4] == descriptor(b)[4]);
    assert(a.encoding == b.encoding);
    assert(d.len() == descriptor(b).len());
    if d.len() > 7 {
        assert(d[7] == descriptor(b)[7]);
    }
    if d.len() > 8 {
        assert(d[8] == descriptor(b)[8]);
    }
    if d.len() > 14 {
        assert(d[14] == descriptor(b)[14]);
    }
}

/// The number of an encoding among the eighteen.
pub open spec fn encoding_number(e: MessageEncoding) -> int {
    9 * match e.encoding {
        TextEncoding::Base64 => 0int,
        TextEncoding::Base58 => 1int,
    } + 3 * match e.compression {
        None => 0int,
        Some(TextCompression::Deflate) => 1int,
        Some(TextCompression::Brotli) => 2int,
    } + match e.encryption {
        None => 0int,
        Some(TextEncryption::ChaCha20Poly1305) => 1int,
        Some(TextEncryption::Aes256Gcm) => 2int,
    }
}

/// The deflate level of a compression level.
pub open spec fn deflate_level(l: CompressionLevel) -> u32 {
    match l {
        CompressionLevel::Fast => 1,
        CompressionLevel::Balanced => 6,
        CompressionLevel::Quality => 9,
    }
}

/// The brotli quality of a compression level.
pub open spec fn brotli_quality(l: CompressionLevel) -> u32 {
    match l {
        CompressionLevel::Fast => 1,
        CompressionLevel::Balanced => 6,
        CompressionLevel::Quality => 11,
    }
}

/// The payload before sealing: `plain`, compressed as `c` and `level` say.
pub open spec fn packed_payload(c: Option<TextCompression>, level: CompressionLevel, plain: Seq<u8>) -> Seq<u8> {
    match c {
        None => plain,
        Some(TextCompression::Deflate) => deflated(plain, deflate_level(level)),
        Some(TextCompression::Brotli) => brotli_compressed(plain, brotli_quality(level)),
    }
}

/// The bytes a message's text stands for.
pub open spec fn text_decoded(e: TextEncoding, text: Seq<char>) -> Option<Seq<u8>> {
    match e {
        TextEncoding::Base64 => base64_decoded(text),
        TextEncoding::Base58 => base58_decoded(text),
    }
}

/// Sealed bytes opened under `key`: the first twelve bytes are the nonce.
pub open spec fn opened(e: TextEncryption, key: Seq<u8>, data: Seq<u8>) -> Option<Seq<u8>> {
    if data.len() < 12 {
        None
    } else {
        let nonce = data.subrange(0, 12);
        let sealed = data.subrange(12, data.len() as int);
        match e {
            TextEncryption::ChaCha20Poly1305 => chacha_opened(key, nonce, sealed),
            TextEncryption::Aes256Gcm => aes_gcm_opened(key, nonce, sealed),
        }
    }
}

pub open spec fn decompressed(c: TextCompression, data: Seq<u8>) -> Option<Seq<u8>> {
    match c {
        TextCompression::Deflate => deflate_inflated(data),
        TextCompression::Brotli => brotli_decompressed(data),
    }
}

/// What reading message `m` gives to the owner of `receiver_secret`, when
/// `sender_public` sent it: its text decoded, opened with the secret the
/// two keys share, decompressed, and then its signature checked.
pub open spec fn payload_of(m: MessageView, receiver_secret: Seq<u8>, sender_public: Seq<u8>) -> Result<
    Seq<u8>,
    MessageError,
> {
    match text_decoded(m.encoding.encoding, m.content) {
        None => Err(MessageError::InvalidContent),
        Some(raw) => match (match m.encoding.encryption {
            None => Some(raw),
            Some(x) => opened(x, shared_secret(receiver_secret, sender_public), raw),
        }) {
            None => Err(MessageError::DecryptionFailed),
            Some(packed) => match (match m.encoding.compression {
                None => Some(packed),
                Some(c) => decompressed(c, packed),
            }) {
                None => Err(MessageError::DecompressionFailed),
                Some(p) => if signature_valid(sender_public, p, m.sign) {
                    Ok(p)
                } else {
                    Err(MessageError::InvalidSignature)
                },
            },
        },
    }
}

impl MessageEncoding {
    pub fn new(
        encoding: TextEncoding,
        compression: Option<TextCompression>,
        encryption: Option<TextEncryption>,
    ) -> (r: MessageEncoding)
        ensures
            r == (MessageEncoding { encoding, compression, encryption }),
    {
        MessageEncoding { encoding, compression, encryption }
    }

    /// Base64 text, without compression or encryption.
    pub fn default() -> (r: MessageEncoding)
        ensures
            r == (MessageEncoding { encoding: TextEncoding::Base64, compression: None, encryption: None }),
    {
        MessageEncoding { encoding: TextEncoding::Base64, compression: None, encryption: None }
    }

    fn nth(k: u8) -> (r: MessageEncoding)
        requires
            k < 18,
        ensures
            r == nth_encoding(k as int),
    {
        MessageEncoding {
            encoding: if k / 9 == 0 {
                TextEncoding::Base64
            } else {
                TextEncoding::Base58
            },
            compression: if (k / 3) % 3 == 0 {
                None
            } else if (k / 3) % 3 == 1 {
                Some(TextCompression::Deflate)
            } else {
                Some(TextCompression::Brotli)
            },
            encryption: if k % 3 == 0 {
                None
            } else if k % 3 == 1 {
                Some(TextEncryption::ChaCha20Poly1305)
            } else {
                Some(TextEncryption::Aes256Gcm)
            },
        }
    }

    /// The encoding's descriptor.
    pub fn to_descriptor(&self) -> (r: String)
        ensures
            r@ == descriptor(*self),
    {
        let mut r = String::from_str(
            match self.encoding {
                TextEncoding::Base64 => "base64",
                TextEncoding::Base58 => "base58",
            },
        );
        match self.compression {
            Some(c) => {
                r.append("/");
                r.append(
                    match c {
                        TextCompression::Deflate => "deflate",
                        TextCompression::Brotli => "brotli",
                    },
                );
            },
            None => {},
        }
        match self.encryption {
            Some(x) => {
                r.append("/");
                r.append(
                    match x {
                        TextEncryption::ChaCha20Poly1305 => "chacha20-poly1305",
                        TextEncryption::Aes256Gcm => "aes256-gcm",
                    },
                );
            },
            None => {},
        }
        assert(r@ =~= descriptor(*self));
        r
    }

    /// The encoding with the given descriptor; read back, the descriptor of
    /// an encoding gives that encoding.
    pub fn from_descriptor(text: &str) -> (r: Option<MessageEncoding>)
        ensures
            match r {
                Some(e) => descriptor(e) == text@,
                None => forall|e: MessageEncoding| #[trigger] descriptor(e) != text@,
            },
            forall|e: MessageEncoding| #[trigger] descriptor(e) == text@ ==> r == Some(e),
    {
        let mut k: u8 = 0;
        while k < 18
            invariant
                k <= 18,
                forall|e: MessageEncoding|
                    encoding_number(e) < k ==> #[trigger] descriptor(e) != text@,
            decreases 18 - k,
        {
            let candidate = MessageEncoding::nth(k);
            if str_eq(candidate.to_descriptor().as_str(), text) {
                proof {
                    assert forall|e: MessageEncoding| #[trigger] descriptor(e) == text@ implies candidate
                        == e by {
                        lemma_descriptor_injective(candidate, e);
                    }
                }
                return Some(candidate);
            }
            assert forall|e: MessageEncoding|
                encoding_number(e) < k + 1 implies #[trigger] descriptor(e) != text@ by {
                if encoding_number(e) == k {
                    assert(nth_encoding(encoding_number(e)) == e);
                }
            }
            k += 1;
        }
        assert forall|e: MessageEncoding| #[trigger] descriptor(e) != text@ by {
            assert(encoding_number(e) < 18);
        }
        None
    }
}

/// Why a message could not be made or read.
#[derive(Debug, Clone, Copy, PartialEq, Eq, Hash, Structural)]
pub enum MessageError {
    /// The payload to seal is longer than the ciphers take
    /// (`SEALED_PAYLOAD_MAX` bytes).
    PayloadTooLong,
    /// The content is not valid text of its scheme.
    InvalidContent,
    /// The sealed payload does not open with the shared secret.
    DecryptionFailed,
    /// The payload is no valid stream of its compression.
    DecompressionFailed,
    /// The signature does not verify under the sender's key.
    InvalidSignature,
}

/// A message: its encoded payload, the sender's signature of the plain
/// payload, and how the payload was encoded.
#[derive(Debug, PartialEq, Eq, Hash)]
pub struct Message {
    pub content: String,
    pub sign: Vec<u8>,
    pub encoding: MessageEncoding,
}

/// What a message holds.
pub struct MessageView {
    pub content: Seq<char>,
    pub sign: Seq<u8>,
    pub encoding: MessageEncoding,
}

impl View for Message {
    type V = MessageView;

    open spec fn view(&self) -> MessageView {
        MessageView { content: self.content@, sign: self.sign@, encoding: self.encoding }
    }
}

impl Clone for Message {
    fn clone(&self) -> (r: Message)
        ensures
            r@ == self@,
    {
        Message { content: self.content.clone(), sign: self.sign.clone(), encoding: self.encoding }
    }
}

impl Message {
    pub fn new(content: String, sign: Vec<u8>, encoding: MessageEncoding) -> (r: Message)
        ensures
            r == (Message { content, sign, encoding }),
    {
        Message { content, sign, encoding }
    }

    /// Makes a message of `plaintext` from the owner of `sender_secret` to
    /// the owner of `receiver_public`: the receiver reads it back as
    /// `plaintext`.
    pub fn create(
        sender_secret: &SecretKey,
        receiver_public: &PublicKey,
        plaintext: &[u8],
        encoding: MessageEncoding,
        level: CompressionLevel,
    ) -> (r: Result<Message, MessageError>)
        ensures
            match r {
                Ok(m) => {
                    &&& m.encoding == encoding
                    &&& signature_valid(public_key_of(sender_secret@), plaintext@, m.sign@)
                    &&& forall|rs: Seq<u8>|
                        secret_key_encoding(rs) && public_key_of(rs) == receiver_public@
                            ==> #[trigger] payload_of(m@, rs, public_key_of(sender_secret@))
                            == Ok::<Seq<u8>, MessageError>(plaintext@)
                },
                Err(e) => e == MessageError::PayloadTooLong,
            },
            r is Err <==> encoding.encryption is Some && packed_payload(
                encoding.compression,
                level,
                plaintext@,
            ).len() > SEALED_PAYLOAD_MAX,
    {
        let sign = sender_secret.create_signature(plaintext);
        let packed = match encoding.compression {
            None => slice_to_vec(plaintext),
            Some(TextCompression::Deflate) => {
                let lvl: u32 = match level {
                    CompressionLevel::Fast => 1,
                    CompressionLevel::Balanced => 6,
                    CompressionLevel::Quality => 9,
                };
                deflate(plaintext, lvl)
            },
            Some(TextCompression::Brotli) => {
                let quality: u32 = match level {
                    CompressionLevel::Fast => 1,
                    CompressionLevel::Balanced => 6,
                    CompressionLevel::Quality => 11,
                };
                brotli_compress(plaintext, quality)
            },
        };
        assert(packed@ == packed_payload(encoding.compression, level, plaintext@));
        let ghost key_view: Seq<u8> = Seq::empty();
        let raw = match encoding.encryption {
            None => packed,
            Some(x) => {
                if packed.len() as u64 > SEALED_PAYLOAD_MAX {
                    return Err(MessageError::PayloadTooLong);
                }
                let key = sender_secret.shared_secret(receiver_public);
                proof {
                    key_view = key@;
                }
                let mut nonce = random_bytes(12);
                let mut sealed = match x {
                    TextEncryption::ChaCha20Poly1305 => chacha_seal(key.as_slice(), nonce.as_slice(), packed.as_slice()),
                    TextEncryption::Aes256Gcm => aes_gcm_seal(key.as_slice(), nonce.as_slice(), packed.as_slice()),
                };
                let ghost nonce_view = nonce@;
                let ghost sealed_view = sealed@;
                nonce.append(&mut sealed);
                assert(nonce@.subrange(0, 12) =~= nonce_view);
                assert(nonce@.subrange(12, nonce@.len() as int) =~= sealed_view);
                nonce
            },
        };
        let content = match encoding.encoding {
            TextEncoding::Base64 => encode_base64(raw.as_slice()),
            TextEncoding::Base58 => encode_base58(raw.as_slice()),
        };
        let m = Message { content, sign, encoding };
        proof {
            assert forall|rs: Seq<u8>|
                secret_key_encoding(rs) && public_key_of(rs) == receiver_public@ implies #[trigger] payload_of(
                m@,
                rs,
                public_key_of(sender_secret@),
            ) == Ok::<Seq<u8>, MessageError>(plaintext@) by {
                if encoding.encryption is Some {
                    assert(key_view == shared_secret(rs, public_key_of(sender_secret@)));
                }
            }
        }
        Ok(m)
    }

    /// Reads the payload of a message sent by the owner of `sender_public`:
    /// decodes its text, opens it with the secret the two keys share,
    /// decompresses it and checks the signature.
    pub fn read(&self, receiver_secret: &SecretKey, sender_public: &PublicKey) -> (r: Result<Vec<u8>, MessageError>)
        ensures
            match payload_of(self@, receiver_secret@, sender_public@) {
                Ok(p) => r matches Ok(v) && v@ == p,
                Err(e) => r == Err::<Vec<u8>, MessageError>(e),
            },
    {
        let raw = match self.encoding.encoding {
            TextEncoding::Base64 => decode_base64(self.content.as_str()),
            TextEncoding::Base58 => decode_base58(self.content.as_str()),
        };
        let raw = match raw {
            Some(b) => b,
            None => return Err(MessageError::InvalidContent),
        };
        let packed = match self.encoding.encryption {
            None => Some(raw),
            Some(x) => {
                if raw.len() < 12 {
                    None
                } else {
                    let key = receiver_secret.shared_secret(sender_public);
                    let nonce = slice_subrange(raw.as_slice(), 0, 12);
                    let sealed = slice_subrange(raw.as_slice(), 12, raw.len());
                    match x {
                        TextEncryption::ChaCha20Poly1305 => chacha_open(key.as_slice(), nonce, sealed),
                        TextEncryption::Aes256Gcm => aes_gcm_open(key.as_slice(), nonce, sealed),
                    }
                }
            },
        };
        let packed = match packed {
            Some(b) => b,
            None => return Err(MessageError::DecryptionFailed),
        };
        let plain = match self.encoding.compression {
            None => Some(packed),
            Some(TextCompression::Deflate) => inflate(packed.as_slice()),
            Some(TextCompression::Brotli) => brotli_decompress(packed.as_slice()),
        };
        let plain = match plain {
            Some(b) => b,
            None => return Err(MessageError::DecompressionFailed),
        };
        if sender_public.verify_signature(plain.as_slice(), self.sign.as_slice()) {
            Ok(plain)
        } else {
            Err(MessageError::InvalidSignature)
        }
    }
}

/// Relies on `std::time::SystemTime::now`: seconds since the Unix epoch, 0
/// where the clock is set before it.
#[verifier::external_body]
fn timestamp() -> u64 {
    match std::time::SystemTime::now().duration_since(std::time::UNIX_EPOCH) {
        Ok(d) => d.as_secs(),
        Err(_) => 0,
    }
}

/// A message as an inbox keeps it.
#[derive(Debug, Clone, PartialEq, Eq, Hash)]
pub struct MessageInfo {
    pub sender: Sender,
    pub channel: String,
    pub message: Message,
    pub received_at: u64,
}

impl MessageInfo {
    pub fn new(sender: Sender, channel: &str, message: Message, received_at: u64) -> (r: MessageInfo)
        ensures
            r.sender == sender,
            r.channel@ == channel@,
            r.message == message,
            r.received_at == received_at,
    {
        MessageInfo { sender, channel: channel.to_owned(), message, received_at }
    }

    /// `new` with the current time.
    pub fn new_now(sender: Sender, channel: &str, message: Message) -> (r: MessageInfo)
        ensures
            r.sender == sender,
            r.channel@ == channel@,
            r.message == message,
    {
        MessageInfo::new(sender, channel, message, timestamp())
    }
}

} // verus!
