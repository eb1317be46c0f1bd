use hyperborea::crypto::SecretKey;
use hyperborea::message::MessageInfo;
use hyperborea::types::{Client, ClientInfo, ConnectionCertificate, Sender, Server};
use hyperborea::message::{
    CompressionLevel, Message, MessageEncoding, MessageError, TextCompression, TextEncoding, TextEncryption,
};

#[test]
fn create_read_round_trip() {
    let sender = SecretKey::random();
    let receiver = SecretKey::random();
    for plaintext in [&b""[..], b"a", b"Hello, World!", &[0u8, 255, 1, 254]] {
        let message = Message::create(
            &sender,
            &receiver.public_key(),
            plaintext,
            MessageEncoding::default(),
            CompressionLevel::default(),
        )
        .unwrap();
        assert_eq!(message.read(&receiver, &sender.public_key()).unwrap(), plaintext);
    }
}

#[test]
fn content_is_base64() {
    let sender = SecretKey::random();
    let message = Message::create(&sender, &sender.public_key(), b"Hello", MessageEncoding::default(), CompressionLevel::Fast).unwrap();
    assert_eq!(message.content, "SGVsbG8=");
}

#[test]
fn read_rejects_tampering() {
    let sender = SecretKey::random();
    let receiver = SecretKey::random();
    let mut message = Message::create(&sender, &receiver.public_key(), b"payload", MessageEncoding::default(), CompressionLevel::default()).unwrap();
    assert_eq!(message.read(&receiver, &receiver.public_key()), Err(MessageError::InvalidSignature));
    message.content = String::from("cGF5bG9hRA==");
    assert_eq!(message.read(&receiver, &sender.public_key()), Err(MessageError::InvalidSignature));
    message.content = String::from("not base64");
    assert_eq!(message.read(&receiver, &sender.public_key()), Err(MessageError::InvalidContent));
}

fn all_encodings() -> Vec<MessageEncoding> {
    let mut all = Vec::new();
    for encoding in [TextEncoding::Base64, TextEncoding::Base58] {
        for compression in [None, Some(TextCompression::Deflate), Some(TextCompression::Brotli)] {
            for encryption in [None, Some(TextEncryption::ChaCha20Poly1305), Some(TextEncryption::Aes256Gcm)] {
                all.push(MessageEncoding::new(encoding, compression, encryption));
            }
        }
    }
    all
}

#[test]
fn every_encoding_round_trips() {
    let sender = SecretKey::random();
    let receiver = SecretKey::random();
    let plaintext = b"Lorem ipsum dolor sit amet, lorem ipsum dolor sit amet, lorem ipsum.";
    for encoding in all_encodings() {
        for level in [CompressionLevel::Fast, CompressionLevel::Balanced, CompressionLevel::Quality] {
            let message = Message::create(&sender, &receiver.public_key(), plaintext, encoding, level).unwrap();
            assert_eq!(message.read(&receiver, &sender.public_key()).unwrap(), plaintext, "{encoding:?}");
        }
    }
}

#[test]
fn encrypted_message_is_private() {
    let sender = SecretKey::random();
    let receiver = SecretKey::random();
    let eavesdropper = SecretKey::random();
    let encoding = MessageEncoding::new(TextEncoding::Base64, None, Some(TextEncryption::ChaCha20Poly1305));
    let message = Message::create(&sender, &receiver.public_key(), b"secret", encoding, CompressionLevel::default()).unwrap();
    assert_ne!(message.content, "c2VjcmV0");
    assert_eq!(message.read(&eavesdropper, &sender.public_key()), Err(MessageError::DecryptionFailed));
    let short = Message::new(String::from("AAAA"), vec![], encoding);
    assert_eq!(short.read(&receiver, &sender.public_key()), Err(MessageError::DecryptionFailed));
}

#[test]
fn compressed_content_differs() {
    let sender = SecretKey::random();
    let plaintext = vec![b'a'; 1000];
    for compression in [TextCompression::Deflate, TextCompression::Brotli] {
        let encoding = MessageEncoding::new(TextEncoding::Base58, Some(compression), None);
        let message = Message::create(&sender, &sender.public_key(), &plaintext, encoding, CompressionLevel::Quality).unwrap();
        assert!(message.content.len() < 200);
        let garbage = Message::new(String::from("2NEpo7TZRRrLZSi2U"), message.sign.clone(), encoding);
        assert_eq!(garbage.read(&sender, &sender.public_key()), Err(MessageError::DecompressionFailed));
    }
}

#[test]
fn descriptors() {
    assert_eq!(MessageEncoding::default().to_descriptor(), "base64");
    let full = MessageEncoding::new(TextEncoding::Base64, Some(TextCompression::Deflate), Some(TextEncryption::ChaCha20Poly1305));
    assert_eq!(full.to_descriptor(), "base64/deflate/chacha20-poly1305");
    let other = MessageEncoding::new(TextEncoding::Base58, None, Some(TextEncryption::Aes256Gcm));
    assert_eq!(other.to_descriptor(), "base58/aes256-gcm");
    for encoding in [MessageEncoding::default(), full, other] {
        assert_eq!(MessageEncoding::from_descriptor(&encoding.to_descriptor()), Some(encoding));
    }
    assert_eq!(MessageEncoding::from_descriptor("base64/"), None);
    assert_eq!(MessageEncoding::from_descriptor("base64/chacha20-poly1305/deflate"), None);
}

#[test]
fn aes_message_is_sealed() {
    let sender = SecretKey::random();
    let receiver = SecretKey::random();
    let encoding = MessageEncoding::new(TextEncoding::Base64, None, Some(TextEncryption::Aes256Gcm));
    let message = Message::create(&sender, &receiver.public_key(), b"secret", encoding, CompressionLevel::default()).unwrap();
    assert_ne!(message.content, "c2VjcmV0");
    assert_eq!(message.read(&receiver, &sender.public_key()).unwrap(), b"secret");
    assert_eq!(message.read(&sender, &sender.public_key()), Err(MessageError::DecryptionFailed));
}

#[test]
fn message_info_timestamps() {
    let secret = SecretKey::random();
    let sender = Sender::new(
        Client::new(secret.public_key(), ConnectionCertificate::new(&secret, &secret.public_key()), ClientInfo::thin()),
        Server::new(secret.public_key(), String::from("http://localhost")),
    );
    let message = Message::new(String::from("content"), vec![1, 2, 3], MessageEncoding::default());
    let info = MessageInfo::new(sender.clone(), "Hello, World!", message.clone(), 17);
    assert_eq!(info.received_at, 17);
    assert_eq!(info.channel, "Hello, World!");
    let now = MessageInfo::new_now(sender, "Hello, World!", message);
    assert!(now.received_at > 1_600_000_000);
}
