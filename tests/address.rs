use std::str::FromStr;

use hyperborea::address::{parse as parse_uri, Address};
use hyperborea::crypto::{CryptoError, PublicKey, SecretKey};
use hyperborea::types::ClientType;

#[test]
fn parse() -> Result<(), CryptoError> {
    let public_key = SecretKey::random().public_key();

    for protocol in ["hyperborea", "hyp"] {
        assert_eq!(parse_uri(&format!("{protocol}://{}", public_key.to_base64()))?, Address::Hyperborea {
            public_key: public_key.clone(),
            client_type: ClientType::Thin
        });
    }

    for protocol in ["hyperborea", "hyp"] {
        for client_type in ["thin", "thick", "server", "file"] {
            assert_eq!(parse_uri(&format!("{protocol}://{client_type}:{}", public_key.to_base64()))?, Address::Hyperborea {
                public_key: public_key.clone(),
                client_type: ClientType::from_str(client_type).unwrap()
            });
        }
    }

    for protocol in ["hyperborea-client", "hyp-client"] {
        assert_eq!(parse_uri(&format!("{protocol}://{}", public_key.to_base64()))?, Address::Hyperborea {
            public_key: public_key.clone(),
            client_type: ClientType::Thin
        });
    }

    for protocol in ["hyperborea-server", "hyp-server"] {
        assert_eq!(parse_uri(&format!("{protocol}://{}", public_key.to_base64()))?, Address::Hyperborea {
            public_key: public_key.clone(),
            client_type: ClientType::Server
        });
    }

    for protocol in ["hyperborea-file", "hyp-file"] {
        assert_eq!(parse_uri(&format!("{protocol}://{}", public_key.to_base64()))?, Address::Hyperborea {
            public_key: public_key.clone(),
            client_type: ClientType::File
        });
    }

    assert_eq!(parse_uri("http://example.org")?, Address::Http {
        address: String::from("example.org")
    });

    assert_eq!(parse_uri("https://example.org")?, Address::Https {
        address: String::from("example.org")
    });

    assert_eq!(parse_uri("example.org")?, Address::Raw(String::from("example.org")));

    Ok(())
}

#[test]
fn parse_unknown_scheme_keeps_body() {
    assert_eq!(parse_uri("ftp://example.org/x").unwrap(), Address::Raw(String::from("example.org/x")));
    assert_eq!(parse_uri("").unwrap(), Address::Raw(String::new()));
}

#[test]
fn parse_known_key() {
    let key = PublicKey::from_base64("Anm+Zn753LusVaBilc6HCwcCm/zbLc4o2VnygVsW+BeY").unwrap();
    assert_eq!(
        parse_uri("hyperborea://thick:Anm+Zn753LusVaBilc6HCwcCm/zbLc4o2VnygVsW+BeY").unwrap(),
        Address::Hyperborea { public_key: key, client_type: ClientType::Thick }
    );
}

#[test]
fn parse_bad_keys() {
    assert_eq!(parse_uri("hyperborea://not base64!"), Err(CryptoError::Base64Decode));
    assert_eq!(parse_uri("hyp-server://AAAA"), Err(CryptoError::InvalidPublicKey));
    assert_eq!(parse_uri("hyperborea://file:"), Err(CryptoError::InvalidPublicKey));
}

#[test]
fn from_str_matches_parse() {
    let uri = "https://relay.example.org:8001";
    assert_eq!(Address::from_str(uri).unwrap(), parse_uri(uri).unwrap());
}
