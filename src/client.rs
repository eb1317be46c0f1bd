//! A client's own identity: what it advertises, and its secret key.
use vstd::prelude::*;

use crate::crypto::{SecretKey, secret_key_encoding};
use crate::types::{ClientInfo, ClientType};

verus! {

#[derive(Debug, Clone, PartialEq, Eq, Hash)]
pub struct Client {
    info: ClientInfo,
    secret_key: SecretKey,
}

impl Client {
    pub closed spec fn spec_info(&self) -> ClientInfo {
        self.info
    }

    pub closed spec fn spec_secret_key(&self) -> SecretKey {
        self.secret_key
    }

    pub fn new(info: ClientInfo, secret_key: SecretKey) -> (r: Client)
        ensures
            r.spec_info() == info,
            r.spec_secret_key() == secret_key,
    {
        Client { info, secret_key }
    }

    /// A thin client with the given key.
    pub fn thin(secret_key: SecretKey) -> (r: Client)
        ensures
            r.spec_info().client_type == ClientType::Thin,
            r.spec_secret_key() == secret_key,
    {
        Client { info: ClientInfo::thin(), secret_key }
    }

    /// A thin client with a fresh random key.
    pub fn random() -> (r: Client)
        ensures
            r.spec_info().client_type == ClientType::Thin,
            secret_key_encoding(r.spec_secret_key()@),
    {
        Client { info: ClientInfo::thin(), secret_key: SecretKey::random() }
    }

    pub fn info(&self) -> (r: &ClientInfo)
        ensures
            *r == self.spec_info(),
    {
        &self.info
    }

    pub fn secret_key(&self) -> (r: &SecretKey)
        ensures
            *r == self.spec_secret_key(),
    {
        &self.secret_key
    }
}

} // verus!
