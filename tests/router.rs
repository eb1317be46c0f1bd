use hyperborea::crypto::SecretKey;
use hyperborea::router::Router;
use hyperborea::types::{Client, ClientInfo, ClientType, ConnectionCertificate, Server};

fn client(secret: &SecretKey, home: &SecretKey, info: ClientInfo) -> Client {
    Client::new(secret.public_key(), ConnectionCertificate::new(secret, &home.public_key()), info)
}

#[test]
fn local_client_shadows_remote() {
    let home = SecretKey::random();
    let far = SecretKey::random();
    let alice = SecretKey::random();
    let far_server = Server::new(far.public_key(), String::from("https://far.example.org"));

    let mut router = Router::new();
    router.index_remote_client(client(&alice, &far, ClientInfo::thin()), far_server.clone());
    assert!(router.lookup_remote_client(&alice.public_key(), ClientType::Thin).is_some());

    router.index_local_client(client(&alice, &home, ClientInfo::thick()));
    assert!(router.lookup_remote_client(&alice.public_key(), ClientType::Thin).is_none());
    let (found, available) = router.lookup_local_client(&alice.public_key(), ClientType::Thick).unwrap();
    assert_eq!(found.info, ClientInfo::thick());
    assert!(available);

    router.index_remote_client(client(&alice, &far, ClientInfo::thin()), far_server);
    assert!(router.lookup_remote_client(&alice.public_key(), ClientType::Thin).is_none());

    router.index_local_client(client(&alice, &home, ClientInfo::file()));
    assert_eq!(router.local_clients().len(), 1);
    router.disconnect(&alice.public_key());
    router.disconnect(&alice.public_key());
    assert!(router.lookup_local_client(&alice.public_key(), ClientType::Thin).is_none());
    assert!(router.local_clients().is_empty());
}

#[test]
fn servers_upsert() {
    let s = SecretKey::random();
    let mut router = Router::new();
    router.index_server(Server::new(s.public_key(), String::from("http://a")));
    router.index_server(Server::new(s.public_key(), String::from("http://b")));
    let servers = router.servers();
    assert_eq!(servers.len(), 1);
    assert_eq!(servers[0].address, "http://b");
}

#[test]
fn type_filter() {
    assert!(ClientType::File.matches(ClientType::Thin));
    assert!(ClientType::File.matches(ClientType::File));
    assert!(!ClientType::Thin.matches(ClientType::Thick));
}
