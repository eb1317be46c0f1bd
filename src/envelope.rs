//! The signed envelope every request and response travels in.
//!
//! A request carries a random 64-bit proof seed and the sender's signature
//! of its eight big-endian bytes. A response signs the request's seed again
//! with the responder's key, which binds it to the request and proves that
//! the responder holds its key.
use vstd::prelude::*;

use crate::crypto::{
    PublicKey, SecretKey, be_bytes, be_bytes_spec, public_key_of, random_u64, signature_of,
    signature_valid,
};

verus! {

/// Whether `proof_sign` signs `proof_seed` under `public_key`.
pub open spec fn proof_valid(public_key: Seq<u8>, proof_seed: u64, proof_sign: Seq<u8>) -> bool {
    signature_valid(public_key, be_bytes_spec(proof_seed), proof_sign)
}

/// The status code of a response.
#[derive(Debug, Clone, Copy, PartialEq, Eq, Hash, Structural)]
pub enum ResponseStatus {
    Success,
    RequestValidationFailed,
    ServerError,
}

/// Why an envelope could not be checked.
#[derive(Debug, Clone, Copy, PartialEq, Eq, Hash, Structural)]
pub enum ValidationError {
    /// The proof seed is not a 64-bit unsigned integer.
    InvalidSeed,
    /// A key or signature could not be handled.
    CryptographyError,
}

/// A signed request with body `B`.
#[derive(Debug, Clone, PartialEq, Eq, Hash)]
pub struct Request<B> {
    pub public_key: PublicKey,
    pub proof_seed: u64,
    pub proof_sign: Vec<u8>,
    pub request: B,
}

impl<B> Request<B> {
    /// Whether the request's proof verifies under its declared key.
    pub open spec fn spec_is_valid(&self) -> bool {
        proof_valid(self.public_key@, self.proof_seed, self.proof_sign@)
    }

    /// Wraps `body` in a request signed with `secret`, under a fresh random
    /// seed.
    pub fn new(secret: &SecretKey, body: B) -> (r: Request<B>)
        ensures
            r.public_key@ == public_key_of(secret@),
            r.request == body,
            r.proof_sign@ == signature_of(secret@, be_bytes_spec(r.proof_seed)),
            r.spec_is_valid(),
    {
        let proof_seed = random_u64();
        let seed_bytes = be_bytes(proof_seed);
        let proof_sign = secret.create_signature(seed_bytes.as_slice());
        Request { public_key: secret.public_key(), proof_seed, proof_sign, request: body }
    }

    /// Checks the request's proof under its declared key.
    pub fn validate(&self) -> (r: Result<bool, ValidationError>)
        ensures
            r == Ok::<bool, ValidationError>(self.spec_is_valid()),
    {
        let seed_bytes = be_bytes(self.proof_seed);
        Ok(self.public_key.verify_signature(seed_bytes.as_slice(), self.proof_sign.as_slice()))
    }
}

/// A response with body `B`: a signed success, or an error with a reason.
#[derive(Debug, Clone, PartialEq, Eq, Hash)]
pub enum Response<B> {
    Success { status: ResponseStatus, public_key: PublicKey, proof_sign: Vec<u8>, response: B },
    Error { status: ResponseStatus, reason: String },
}

impl<B> Response<B> {
    /// Whether the response proves that its key signed `proof_seed`. An error
    /// response carries no proof.
    pub open spec fn spec_is_valid(&self, proof_seed: u64) -> bool {
        match self {
            Response::Success { public_key, proof_sign, .. } => proof_valid(
                public_key@,
                proof_seed,
                proof_sign@,
            ),
            Response::Error { .. } => false,
        }
    }

    /// The response's status.
    pub open spec fn spec_status(&self) -> ResponseStatus {
        match self {
            Response::Success { status, .. } => *status,
            Response::Error { status, .. } => *status,
        }
    }

    /// A successful response from its parts.
    pub fn success(status: ResponseStatus, public_key: PublicKey, proof_sign: Vec<u8>, response: B) -> (r: Response<B>)
        ensures
            r == (Response::Success { status, public_key, proof_sign, response }),
    {
        Response::Success { status, public_key, proof_sign, response }
    }

    /// A successful response signed with `secret` over the request's
    /// `proof_seed`.
    pub fn signed(status: ResponseStatus, secret: &SecretKey, proof_seed: u64, response: B) -> (r: Response<B>)
        ensures
            r matches Response::Success { status: s, public_key, proof_sign, response: body }
                && s == status && public_key@ == public_key_of(secret@) && proof_sign@
                == signature_of(secret@, be_bytes_spec(proof_seed)) && body == response,
            r.spec_is_valid(proof_seed),
    {
        let seed_bytes = be_bytes(proof_seed);
        let proof_sign = secret.create_signature(seed_bytes.as_slice());
        Response::Success { status, public_key: secret.public_key(), proof_sign, response }
    }

    /// A failed response with a reason.
    pub fn error(status: ResponseStatus, reason: &str) -> (r: Response<B>)
        ensures
            r matches Response::Error { status: s, reason: text } && s == status && text@ == reason@,
    {
        Response::Error { status, reason: reason.to_owned() }
    }

    /// The response's status.
    pub fn status(&self) -> (r: ResponseStatus)
        ensures
            r == self.spec_status(),
    {
        match self {
            Response::Success { status, .. } => *status,
            Response::Error { status, .. } => *status,
        }
    }

    /// Checks the response's proof of `proof_seed`, the seed of the request
    /// it answers.
    pub fn validate(&self, proof_seed: u64) -> (r: Result<bool, ValidationError>)
        ensures
            r == Ok::<bool, ValidationError>(self.spec_is_valid(proof_seed)),
    {
        match self {
            Response::Success { public_key, proof_sign, .. } => {
                let seed_bytes = be_bytes(proof_seed);
                Ok(public_key.verify_signature(seed_bytes.as_slice(), proof_sign.as_slice()))
            },
            Response::Error { .. } => Ok(false),
        }
    }
}

} // verus!
