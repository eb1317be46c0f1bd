use hyperborea::crypto::SecretKey;
use hyperborea::envelope::{Request, Response, ResponseStatus};
use hyperborea::requests::{
    ConnectRequest, ConnectResponse, DisconnectRequest, DisconnectRequestBody, DisconnectResponse,
    DisconnectResponseBody,
};
use hyperborea::types::ClientInfo;

#[test]
fn envelope_proof() {
    let client = SecretKey::random();
    let server = SecretKey::random();

    let request = Request::new(&client, DisconnectRequestBody::new());
    assert_eq!(request.validate(), Ok(true));
    assert_eq!(request.public_key, client.public_key());

    let seed = request.proof_seed;
    let response = DisconnectResponse::success(ResponseStatus::Success, &server, seed);
    assert_eq!(response.validate(seed), Ok(true));
    assert_eq!(response.validate(seed.wrapping_add(1)), Ok(false));

    match &response.0 {
        Response::Success { public_key, proof_sign, .. } => {
            assert_eq!(public_key, &server.public_key());
            assert_eq!(proof_sign, &server.create_signature(&seed.to_be_bytes()));
        }
        _ => panic!("expected a success"),
    }

    let mut tampered = response.clone();
    if let Response::Success { proof_sign, .. } = &mut tampered.0 {
        proof_sign[10] ^= 1;
    }
    assert_eq!(tampered.validate(seed), Ok(false));
}

#[test]
fn request_with_tampered_seed_fails() {
    let client = SecretKey::random();
    let mut request = DisconnectRequest::new(&client);
    assert_eq!(request.validate(), Ok(true));
    request.0.proof_seed ^= 1;
    assert_eq!(request.validate(), Ok(false));
}

#[test]
fn response_signed_by_other_key() {
    let server = SecretKey::random();
    let impostor = SecretKey::random();
    let seed: u64 = 42;
    let response = Response::success(
        ResponseStatus::Success,
        server.public_key(),
        impostor.create_signature(&seed.to_be_bytes()),
        DisconnectResponseBody::new(),
    );
    assert_eq!(response.validate(seed), Ok(false));
}

#[test]
fn error_response_carries_no_proof() {
    let response = DisconnectResponse::error(ResponseStatus::ServerError, "Example error");
    assert_eq!(response.validate(7), Ok(false));
    assert_eq!(response.0.status(), ResponseStatus::ServerError);
    match response.0 {
        Response::Error { reason, .. } => assert_eq!(reason, "Example error"),
        _ => panic!("expected an error response"),
    }
}

#[test]
fn connect_certificate() {
    let client = SecretKey::random();
    let server = SecretKey::random();
    let other = SecretKey::random();

    let request = ConnectRequest::new(&client, &server.public_key(), ClientInfo::thin());
    assert_eq!(request.validate(&server.public_key()), Ok(true));
    assert_eq!(request.validate(&other.public_key()), Ok(false));

    let response = ConnectResponse::success(ResponseStatus::Success, &server, request.0.proof_seed);
    assert_eq!(response.validate(request.0.proof_seed), Ok(true));
}
