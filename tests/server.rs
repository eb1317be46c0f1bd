use hyperborea::crypto::{PublicKey, SecretKey};
use hyperborea::envelope::{Request, Response, ResponseStatus};
use hyperborea::requests::{
    AnnounceRequestBody, ConnectRequest, DisconnectRequest, LookupRequestBody, LookupResponseBody,
    SendResponseBody,
};
use hyperborea::router::Router;
use hyperborea::server::{HttpMethod, ServerDriver, Verb, STANDARD_VERSION};
use hyperborea::types::{Client, ClientInfo, ClientType, ConnectionCertificate, Server};

fn driver(secret: &SecretKey) -> ServerDriver {
    ServerDriver::new(Router::new(), secret.clone(), String::from("http://127.0.0.1:8001"))
}

fn peer(secret: &SecretKey, address: &str) -> Server {
    Server::new(secret.public_key(), String::from(address))
}

fn distance(a: &PublicKey, b: &PublicKey) -> Vec<u8> {
    a.to_bytes().iter().zip(b.to_bytes().iter()).map(|(x, y)| x ^ y).collect()
}

fn lookup(driver: &ServerDriver, asker: &SecretKey, key: &PublicKey, client_type: ClientType) -> LookupResponseBody {
    let request = Request::new(asker, LookupRequestBody { public_key: key.clone(), client_type });
    let seed = request.proof_seed;
    let response = driver.lookup(request);
    assert_eq!(response.validate(seed), Ok(true));
    match response {
        Response::Success { status, response, .. } => {
            assert_eq!(status, ResponseStatus::Success);
            response
        }
        Response::Error { reason, .. } => panic!("lookup failed: {reason}"),
    }
}

#[test]
fn lookup_cascade() {
    let server_secret = SecretKey::random();
    let mut driver = driver(&server_secret);
    let announcer = SecretKey::random();

    let s1 = SecretKey::random();
    let s2 = SecretKey::random();
    for (secret, address) in [(&s1, "http://one.example.org"), (&s2, "http://two.example.org")] {
        let request = Request::new(&announcer, AnnounceRequestBody::Server { server: peer(secret, address) });
        let seed = request.proof_seed;
        assert_eq!(driver.announce(request).validate(seed), Ok(true));
    }

    let target = SecretKey::random().public_key();
    let hint = lookup(&driver, &announcer, &target, ClientType::Thin);

    let (d1, d2) = (distance(&s1.public_key(), &target), distance(&s2.public_key(), &target));
    let expected = if d1 <= d2 {
        vec![s1.public_key(), s2.public_key()]
    } else {
        vec![s2.public_key(), s1.public_key()]
    };
    match hint {
        LookupResponseBody::Hint { servers } => {
            let keys: Vec<PublicKey> = servers.iter().map(|s| s.public_key.clone()).collect();
            assert_eq!(keys, expected);
        }
        other => panic!("expected a hint, got {other:?}"),
    }
}

#[test]
fn lookup_local_then_remote() {
    let server_secret = SecretKey::random();
    let mut driver = driver(&server_secret);
    let client = SecretKey::random();

    let connect = ConnectRequest::new(&client, &server_secret.public_key(), ClientInfo::thick());
    let seed = connect.0.proof_seed;
    assert_eq!(driver.connect(connect).validate(seed), Ok(true));

    match lookup(&driver, &client, &client.public_key(), ClientType::Thick) {
        LookupResponseBody::Local { client: found, available } => {
            assert_eq!(found.public_key, client.public_key());
            assert!(available);
        }
        other => panic!("expected a local record, got {other:?}"),
    }
    match lookup(&driver, &client, &client.public_key(), ClientType::File) {
        LookupResponseBody::Hint { servers } => assert!(servers.is_empty()),
        other => panic!("a record of another type falls through, got {other:?}"),
    }

    let disconnect = DisconnectRequest::new(&client);
    let seed = disconnect.0.proof_seed;
    assert_eq!(driver.disconnect(disconnect).validate(seed), Ok(true));
    assert!(matches!(
        lookup(&driver, &client, &client.public_key(), ClientType::Thin),
        LookupResponseBody::Hint { servers } if servers.is_empty()
    ));

    let remote_server = SecretKey::random();
    let remote_client = Client::new(
        client.public_key(),
        ConnectionCertificate::new(&client, &remote_server.public_key()),
        ClientInfo::thin(),
    );
    let announce = Request::new(&client, AnnounceRequestBody::Client {
        client: remote_client,
        server: peer(&remote_server, "https://far.example.org"),
    });
    driver.announce(announce);
    match lookup(&driver, &client, &client.public_key(), ClientType::Thin) {
        LookupResponseBody::Remote { server, available, .. } => {
            assert_eq!(server.public_key, remote_server.public_key());
            assert!(available);
        }
        other => panic!("expected a remote record, got {other:?}"),
    }
    assert!(matches!(
        lookup(&driver, &client, &client.public_key(), ClientType::Server),
        LookupResponseBody::Hint { servers } if servers.is_empty()
    ));
}

#[test]
fn connect_for_other_server_is_refused() {
    let server_secret = SecretKey::random();
    let mut driver = driver(&server_secret);
    let client = SecretKey::random();
    let elsewhere = SecretKey::random();

    let connect = ConnectRequest::new(&client, &elsewhere.public_key(), ClientInfo::thin());
    match driver.connect(connect).0 {
        Response::Error { status, .. } => assert_eq!(status, ResponseStatus::RequestValidationFailed),
        _ => panic!("expected a refusal"),
    }
    assert!(driver.clients().clients.is_empty());
}

#[test]
fn tampered_request_is_rejected() {
    let server_secret = SecretKey::random();
    let driver = driver(&server_secret);
    let client = SecretKey::random();
    let mut request = Request::new(&client, LookupRequestBody { public_key: client.public_key(), client_type: ClientType::Thin });
    request.proof_seed ^= 1 << 40;
    assert!(matches!(driver.reject::<_, SendResponseBody>(&request), Some(Response::Error { status: ResponseStatus::RequestValidationFailed, .. })));
    match driver.lookup(request) {
        Response::Error { status, .. } => assert_eq!(status, ResponseStatus::RequestValidationFailed),
        _ => panic!("expected a refusal"),
    }
}

#[test]
fn answers_and_info() {
    let server_secret = SecretKey::random();
    let driver = driver(&server_secret);
    let ok = driver.answer(9, Ok(SendResponseBody));
    assert_eq!(ok.validate(9), Ok(true));
    let failed = driver.answer::<SendResponseBody>(9, Err(String::from("disk full")));
    assert!(matches!(failed, Response::Error { status: ResponseStatus::ServerError, ref reason } if reason == "disk full"));

    let info = driver.info();
    assert_eq!(info.public_key, server_secret.public_key());
    assert_eq!(info.standard, STANDARD_VERSION);
}

#[test]
fn middleware_parts() {
    let server = hyperborea::server::Server::new(7u16, String::from("listener"), std::sync::Arc::new(driver(&SecretKey::random())));
    assert_eq!(*server.http_client(), 7);
    assert_eq!(server.http_server(), "listener");
    let shared = server.driver();
    assert_eq!(std::sync::Arc::strong_count(&shared), 2);
    assert_eq!(shared.address, "http://127.0.0.1:8001");
}

#[test]
fn api_routes() {
    let server = hyperborea::server::Server::new((), (), std::sync::Arc::new(driver(&SecretKey::random())));
    let routes: Vec<(HttpMethod, &str, Verb)> = server.routes().iter().map(|r| (r.method, r.path, r.verb)).collect();
    assert_eq!(routes, vec![
        (HttpMethod::Get, "/api/v1/info", Verb::Info),
        (HttpMethod::Get, "/api/v1/clients", Verb::Clients),
        (HttpMethod::Get, "/api/v1/servers", Verb::Servers),
        (HttpMethod::Post, "/api/v1/connect", Verb::Connect),
        (HttpMethod::Post, "/api/v1/disconnect", Verb::Disconnect),
        (HttpMethod::Post, "/api/v1/announce", Verb::Announce),
        (HttpMethod::Post, "/api/v1/lookup", Verb::Lookup),
        (HttpMethod::Post, "/api/v1/send", Verb::Send),
        (HttpMethod::Post, "/api/v1/poll", Verb::Poll),
    ]);
    assert_eq!(server.route(HttpMethod::Post, "/api/v1/lookup"), Some(Verb::Lookup));
    assert_eq!(server.route(HttpMethod::Get, "/api/v1/lookup"), None);
    assert_eq!(server.route(HttpMethod::Get, "/api/v2/info"), None);
}
