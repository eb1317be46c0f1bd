use std::collections::HashMap;

use hyperborea::crypto::SecretKey;
use hyperborea::inbox::{InboxIndex, PollCursor};
use hyperborea::message::{CompressionLevel, Message, MessageEncoding, MessageInfo};
use hyperborea::types::{Client, ClientInfo, ConnectionCertificate, Sender, Server};

/// An inbox whose "files" are kept in memory, walked the way the stored
/// queue walks its directory.
struct Inbox {
    indexes: HashMap<String, Vec<u8>>,
    files: HashMap<u64, MessageInfo>,
    next_id: u64,
}

impl Inbox {
    fn new() -> Self {
        Inbox { indexes: HashMap::new(), files: HashMap::new(), next_id: 1000 }
    }

    fn add(&mut self, sender: Sender, channel: &str, message: Message) {
        let bytes = self.indexes.get(channel).cloned().unwrap_or_default();
        let mut index = InboxIndex::from_bytes(&bytes).unwrap();
        let id = self.next_id;
        self.next_id += 7;
        index.push(id);
        self.indexes.insert(channel.to_string(), index.to_bytes());
        self.files.insert(id, MessageInfo::new(sender, channel, message, 0));
    }

    fn poll(&mut self, channel: &str, limit: Option<u64>) -> (Vec<MessageInfo>, u64) {
        let Some(bytes) = self.indexes.get(channel).cloned() else {
            return (vec![], 0);
        };
        let mut cursor = PollCursor::new(InboxIndex::from_bytes(&bytes).unwrap(), limit);
        let mut messages = Vec::new();
        while let Some(id) = cursor.next() {
            let found = match self.files.remove(&id) {
                Some(info) => {
                    messages.push(info);
                    true
                }
                None => false,
            };
            cursor.advance(found);
        }
        let (rest, remaining) = cursor.finish();
        self.indexes.insert(channel.to_string(), rest.to_bytes());
        (messages, remaining)
    }
}

fn sender() -> Sender {
    let client = SecretKey::random();
    let server = SecretKey::random();
    Sender::new(
        Client::new(client.public_key(), ConnectionCertificate::new(&client, &server.public_key()), ClientInfo::thin()),
        Server::new(server.public_key(), String::from("http://localhost:8001")),
    )
}

#[test]
fn send_poll() {
    let mut queue = Inbox::new();

    let sender_secret = SecretKey::random();
    let receiver_secret = SecretKey::random();
    let sender = sender();

    for message in [b"message 1", b"message 2", b"message 3", b"message 4", b"message 5"] {
        let message = Message::create(
            &sender_secret,
            &receiver_secret.public_key(),
            message,
            MessageEncoding::default(),
            CompressionLevel::default(),
        )
        .unwrap();
        queue.add(sender.clone(), "default channel", message);
    }

    assert_eq!(queue.poll("random channel", None), (vec![], 0));
    assert_eq!(queue.poll("random channel", Some(100)), (vec![], 0));

    let (poll, 4) = queue.poll("default channel", Some(1)) else {
        panic!("Test 1 failed");
    };
    assert_eq!(poll[0].message.read(&receiver_secret, &sender_secret.public_key()).unwrap(), b"message 1");

    let (poll, 2) = queue.poll("default channel", Some(2)) else {
        panic!("Test 2 failed");
    };
    assert_eq!(poll[0].message.read(&receiver_secret, &sender_secret.public_key()).unwrap(), b"message 2");
    assert_eq!(poll[1].message.read(&receiver_secret, &sender_secret.public_key()).unwrap(), b"message 3");

    let (poll, 0) = queue.poll("default channel", None) else {
        panic!("Test 3 failed");
    };
    assert_eq!(poll[0].message.read(&receiver_secret, &sender_secret.public_key()).unwrap(), b"message 4");
    assert_eq!(poll[1].message.read(&receiver_secret, &sender_secret.public_key()).unwrap(), b"message 5");
}

#[test]
fn poll_limit_zero_takes_nothing() {
    let index = InboxIndex::from_bytes(&[0, 0, 0, 0, 0, 0, 0, 1, 0, 0, 0, 0, 0, 0, 0, 2]).unwrap();
    let cursor = PollCursor::new(index, Some(0));
    assert_eq!(cursor.next(), None);
    let (rest, remaining) = cursor.finish();
    assert_eq!(remaining, 2);
    assert_eq!(rest.to_bytes(), vec![0, 0, 0, 0, 0, 0, 0, 1, 0, 0, 0, 0, 0, 0, 0, 2]);
}

#[test]
fn poll_skips_missing_files() {
    let mut index = InboxIndex::new();
    for id in [1u64, 2, 3, 4] {
        index.push(id);
    }
    let mut cursor = PollCursor::new(index, Some(2));
    let mut seen = Vec::new();
    while let Some(id) = cursor.next() {
        seen.push(id);
        cursor.advance(id != 2);
    }
    assert_eq!(seen, vec![1, 2, 3]);
    assert_eq!(cursor.taken_ids(), vec![1, 3]);
    let (rest, remaining) = cursor.finish();
    assert_eq!(remaining, 1);
    assert_eq!(rest.to_bytes(), vec![0, 0, 0, 0, 0, 0, 0, 4]);
}

#[test]
fn index_bytes() {
    assert_eq!(InboxIndex::from_bytes(&[]).unwrap().len(), 0);
    assert!(InboxIndex::from_bytes(&[1, 2, 3]).is_none());
    assert!(InboxIndex::from_bytes(&[0; 12]).is_none());
    let mut index = InboxIndex::new();
    index.push(0x0102030405060708);
    index.push(u64::MAX);
    let bytes = index.to_bytes();
    assert_eq!(bytes, vec![1, 2, 3, 4, 5, 6, 7, 8, 255, 255, 255, 255, 255, 255, 255, 255]);
    assert_eq!(InboxIndex::from_bytes(&bytes).unwrap().to_bytes(), bytes);
}

#[test]
fn poll_returns_old_and_new_in_order() {
    let mut index = InboxIndex::from_bytes(&[0, 0, 0, 0, 0, 0, 0, 9]).unwrap();
    for id in [3u64, 1, 2] {
        index.push(id);
    }
    let mut cursor = PollCursor::new(index, None);
    while cursor.next().is_some() {
        cursor.advance(true);
    }
    assert_eq!(cursor.taken_ids(), vec![9, 3, 1, 2]);
    let (rest, remaining) = cursor.finish();
    assert_eq!((rest.len(), remaining), (0, 0));
    assert!(rest.to_bytes().is_empty());
}
