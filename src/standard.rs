//! The on-disk form of a node's identity. A leading version byte names the
//! standard the rest is written in, so that blobs of different standards can
//! live side by side; unknown versions are refused.
//!
//! Version 0: `[0x00]` followed by the 32 bytes of the secret key.
use vstd::prelude::*;

use crate::address::Address;
use crate::crypto::{PublicKey, SecretKey, public_key_of, secret_key_encoding};
use crate::types::ClientType;

verus! {

/// A node's own identity, in the standard it is stored under.
#[derive(Debug, Clone, PartialEq, Eq)]
pub enum Standard {
    V1 { secret_key: SecretKey },
}

/// A node's identity as others know it.
#[derive(Debug, Clone, PartialEq, Eq)]
pub enum RemoteStandard {
    V1 { public_key: PublicKey },
}

/// Why a stored identity could not be read.
#[derive(Debug, Clone, Copy, PartialEq, Eq, Hash, Structural)]
pub enum StandardError {
    /// The blob is empty: it has no version byte.
    MissingVersion,
    /// The version byte names no standard this library reads.
    InvalidStandard(u64),
    /// The key bytes are not a valid secret key.
    CryptographyError,
}

/// The blob of a version-0 identity with secret key `sk`.
pub open spec fn v1_bytes(sk: Seq<u8>) -> Seq<u8> {
    seq![0u8] + sk
}

impl Standard {
    /// The newest standard, holding `secret_key`.
    pub fn latest(secret_key: SecretKey) -> (r: Standard)
        ensures
            r == (Standard::V1 { secret_key }),
    {
        Standard::V1 { secret_key }
    }

    pub fn to_bytes(&self) -> (r: Vec<u8>)
        ensures
            match self {
                Standard::V1 { secret_key } => r@ == v1_bytes(secret_key@),
            },
    {
        match self {
            Standard::V1 { secret_key } => {
                let mut r: Vec<u8> = vec![0u8];
                let mut key = secret_key.to_bytes();
                r.append(&mut key);
                assert(r@ =~= v1_bytes(secret_key@));
                r
            },
        }
    }

    /// Reads a stored identity.
    pub fn from_bytes(bytes: &[u8]) -> (r: Result<Standard, StandardError>)
        ensures
            bytes@.len() == 0 ==> r == Err::<Standard, StandardError>(StandardError::MissingVersion),
            bytes@.len() > 0 && bytes@[0] != 0 ==> r == Err::<Standard, StandardError>(
                StandardError::InvalidStandard(bytes@[0] as u64),
            ),
            bytes@.len() > 0 && bytes@[0] == 0 ==> {
                let key = bytes@.subrange(1, bytes@.len() as int);
                match r {
                    Ok(Standard::V1 { secret_key }) => secret_key@ == key,
                    Err(e) => e == StandardError::CryptographyError && !secret_key_encoding(key),
                }
            },
    {
        if bytes.len() == 0 {
            return Err(StandardError::MissingVersion);
        }
        if bytes[0] != 0 {
            return Err(StandardError::InvalidStandard(bytes[0] as u64));
        }
        let mut key: Vec<u8> = Vec::new();
        let mut i: usize = 1;
        while i < bytes.len()
            invariant
                1 <= i <= bytes@.len(),
                key@ == bytes@.subrange(1, i as int),
            decreases bytes@.len() - i,
        {
            key.push(bytes[i]);
            i += 1;
            assert(key@ =~= bytes@.subrange(1, i as int));
        }
        match SecretKey::from_bytes(key.as_slice()) {
            Ok(secret_key) => Ok(Standard::V1 { secret_key }),
            Err(_) => Err(StandardError::CryptographyError),
        }
    }

    /// The identity as others know it.
    pub fn remote(&self) -> (r: RemoteStandard)
        ensures
            match (self, r) {
                (Standard::V1 { secret_key }, RemoteStandard::V1 { public_key }) => public_key@
                    == public_key_of(secret_key@),
            },
    {
        match self {
            Standard::V1 { secret_key } => RemoteStandard::V1 { public_key: secret_key.public_key() },
        }
    }

    /// The node's address: a thin client with the node's public key.
    pub fn address(&self) -> (r: Address)
        ensures
            match self {
                Standard::V1 { secret_key } => r matches Address::Hyperborea {
                    public_key,
                    client_type,
                } && public_key@ == public_key_of(secret_key@) && client_type == ClientType::Thin,
            },
    {
        match self {
            Standard::V1 { secret_key } => Address::Hyperborea {
                public_key: secret_key.public_key(),
                client_type: ClientType::Thin,
            },
        }
    }
}

} // verus!
