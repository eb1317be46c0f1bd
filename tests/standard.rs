use hyperborea::address::Address;
use hyperborea::client::Client;
use hyperborea::crypto::SecretKey;
use hyperborea::standard::{RemoteStandard, Standard, StandardError};
use hyperborea::types::{ClientInfo, ClientType};

#[test]
fn standard_round_trip() {
    let secret = SecretKey::random();
    let standard = Standard::latest(secret.clone());
    let bytes = standard.to_bytes();
    assert_eq!(bytes.len(), 33);
    assert_eq!(bytes[0], 0);
    assert_eq!(Standard::from_bytes(&bytes), Ok(standard.clone()));
    assert_eq!(standard.remote(), RemoteStandard::V1 { public_key: secret.public_key() });
    assert_eq!(standard.address(), Address::Hyperborea { public_key: secret.public_key(), client_type: ClientType::Thin });
}

#[test]
fn cross_standard_rejection() {
    let mut bytes = Standard::latest(SecretKey::random()).to_bytes();
    bytes[0] = 7;
    assert_eq!(Standard::from_bytes(&bytes), Err(StandardError::InvalidStandard(7)));
    assert_eq!(Standard::from_bytes(&[]), Err(StandardError::MissingVersion));
    assert_eq!(Standard::from_bytes(&[0, 1, 2]), Err(StandardError::CryptographyError));
}

#[test]
fn owned_client() {
    let secret = SecretKey::random();
    let client = Client::new(ClientInfo::server(), secret.clone());
    assert_eq!(client.info().client_type, ClientType::Server);
    assert_eq!(client.secret_key(), &secret);
    assert_eq!(Client::thin(secret.clone()).info().client_type, ClientType::Thin);
    let random = Client::random();
    assert_eq!(random.info().client_type, ClientType::Thin);
    assert_ne!(random.secret_key(), &secret);
}
