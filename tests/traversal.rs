use hyperborea::crypto::SecretKey;
use hyperborea::requests::LookupResponseBody;
use hyperborea::traversal::{Traversal, TraversalStep, MAX_HOPS};
use hyperborea::types::{Client, ClientInfo, ClientType, ConnectionCertificate, Server};

fn server(name: &str) -> Server {
    Server::new(SecretKey::random().public_key(), format!("http://{name}.example.org"))
}

fn ask(traversal: &mut Traversal) -> Server {
    match traversal.next() {
        TraversalStep::Ask(server) => server,
        TraversalStep::Exhausted => panic!("expected a server to ask"),
    }
}

#[test]
fn traversal_follows_hints() {
    let target = SecretKey::random();
    let (a, b, c) = (server("a"), server("b"), server("c"));
    let mut traversal = Traversal::new(target.public_key(), ClientType::Thin, vec![a.clone(), b.clone()]);
    assert_eq!(traversal.target(), &target.public_key());
    assert_eq!(traversal.client_type(), ClientType::Thin);

    assert_eq!(ask(&mut traversal), a);
    let hint = LookupResponseBody::Hint { servers: vec![c.clone(), a.clone()] };
    assert!(traversal.answer(&a, &hint).is_none());

    assert_eq!(ask(&mut traversal), c);
    let client = Client::new(
        target.public_key(),
        ConnectionCertificate::new(&target, &c.public_key),
        ClientInfo::thin(),
    );
    let miss = LookupResponseBody::Local { client: client.clone(), available: false };
    assert!(traversal.answer(&c, &miss).is_none());

    assert_eq!(ask(&mut traversal), b);
    let hit = LookupResponseBody::Remote { client: client.clone(), server: c.clone(), available: true };
    assert_eq!(traversal.answer(&b, &hit), Some((client, c)));
}

#[test]
fn traversal_never_asks_twice() {
    let (a, b) = (server("a"), server("b"));
    let mut traversal = Traversal::new(SecretKey::random().public_key(), ClientType::Thin, vec![a.clone(), b.clone(), a.clone()]);
    assert_eq!(ask(&mut traversal), a);
    traversal.answer(&a, &LookupResponseBody::Hint { servers: vec![a.clone(), b.clone()] });
    assert_eq!(ask(&mut traversal), b);
    assert!(matches!(traversal.next(), TraversalStep::Exhausted));
}

#[test]
fn traversal_hop_budget() {
    let mut current = server("start");
    let mut traversal = Traversal::new(SecretKey::random().public_key(), ClientType::Thick, vec![current.clone()]);
    for _ in 0..MAX_HOPS {
        let asked = ask(&mut traversal);
        assert_eq!(asked, current);
        current = server("next");
        traversal.answer(&asked, &LookupResponseBody::Hint { servers: vec![current.clone()] });
    }
    assert!(matches!(traversal.next(), TraversalStep::Exhausted));
    assert_eq!(MAX_HOPS, 8);
}
