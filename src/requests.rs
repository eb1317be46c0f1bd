//! The bodies of the REST verbs, and the envelopes of `connect` and
//! `disconnect`.
use vstd::prelude::*;

use crate::crypto::{PublicKey, SecretKey, be_bytes_spec, public_key_of, signature_of};
use crate::envelope::{Request, Response, ResponseStatus, ValidationError};
use crate::message::{Message, MessageInfo};
use crate::types::{Client, ClientInfo, ClientType, ConnectionCertificate, Sender, Server};

verus! {

/// `GET info`: the server's key and the standard it speaks.
#[derive(Debug, Clone, PartialEq, Eq, Hash)]
pub struct InfoResponseBody {
    pub public_key: PublicKey,
    pub standard: u64,
}

/// `GET clients`: the clients connected to the server.
#[derive(Debug, Clone, PartialEq, Eq, Hash)]
pub struct ClientsResponseBody {
    pub clients: Vec<Client>,
}

/// `GET servers`: the server's peers.
#[derive(Debug, Clone, PartialEq, Eq, Hash)]
pub struct ServersResponseBody {
    pub servers: Vec<Server>,
}

/// `POST connect` body: the client's certificate for the server, and what
/// it advertises of itself.
#[derive(Debug, Clone, PartialEq, Eq, Hash)]
pub struct ConnectRequestBody {
    pub certificate: ConnectionCertificate,
    pub client: ClientInfo,
}

/// `POST connect` answer body; it holds nothing.
#[derive(Debug, Clone, Copy, PartialEq, Eq, Hash, Structural)]
pub struct ConnectResponseBody;

impl ConnectResponseBody {
    pub fn new() -> (r: ConnectResponseBody)
        ensures
            r == ConnectResponseBody,
    {
        ConnectResponseBody
    }
}

/// `POST connect` request.
#[derive(Debug, Clone, PartialEq, Eq, Hash)]
pub struct ConnectRequest(pub Request<ConnectRequestBody>);

impl ConnectRequest {
    /// Whether the request is signed by its key and carries that key's
    /// certificate for `server_public`.
    pub open spec fn spec_is_valid(&self, server_public: Seq<u8>) -> bool {
        self.0.spec_is_valid() && self.0.request.certificate.spec_is_valid(
            self.0.public_key@,
            server_public,
        )
    }

    /// A request from the owner of `client_secret` to connect to the server
    /// with key `server_public`.
    pub fn new(client_secret: &SecretKey, server_public: &PublicKey, client: ClientInfo) -> (r: ConnectRequest)
        ensures
            r.0.public_key@ == public_key_of(client_secret@),
            r.0.request.client == client,
            r.spec_is_valid(server_public@),
    {
        let certificate = ConnectionCertificate::new(client_secret, server_public);
        ConnectRequest(Request::new(client_secret, ConnectRequestBody { certificate, client }))
    }

    /// Checks the envelope and that the certificate was made for
    /// `server_public`.
    pub fn validate(&self, server_public: &PublicKey) -> (r: Result<bool, ValidationError>)
        ensures
            r == Ok::<bool, ValidationError>(self.spec_is_valid(server_public@)),
    {
        match self.0.validate() {
            Ok(true) => Ok(self.0.request.certificate.validate(&self.0.public_key, server_public)),
            other => other,
        }
    }
}

/// `POST connect` response.
#[derive(Debug, Clone, PartialEq, Eq, Hash)]
pub struct ConnectResponse(pub Response<ConnectResponseBody>);

impl ConnectResponse {
    /// A success signed by the server over the request's seed.
    pub fn success(status: ResponseStatus, server_secret: &SecretKey, proof_seed: u64) -> (r: ConnectResponse)
        ensures
            r.0.spec_status() == status,
            r.0.spec_is_valid(proof_seed),
            r.0 matches Response::Success { public_key, proof_sign, .. } && public_key@
                == public_key_of(server_secret@) && proof_sign@ == signature_of(
                server_secret@,
                be_bytes_spec(proof_seed),
            ),
    {
        ConnectResponse(Response::signed(status, server_secret, proof_seed, ConnectResponseBody))
    }

    pub fn error(status: ResponseStatus, reason: &str) -> (r: ConnectResponse)
        ensures
            r.0 matches Response::Error { status: s, reason: text } && s == status && text@ == reason@,
    {
        ConnectResponse(Response::error(status, reason))
    }

    pub fn validate(&self, proof_seed: u64) -> (r: Result<bool, ValidationError>)
        ensures
            r == Ok::<bool, ValidationError>(self.0.spec_is_valid(proof_seed)),
    {
        self.0.validate(proof_seed)
    }
}

/// `POST disconnect` body; it holds nothing.
#[derive(Debug, Clone, Copy, PartialEq, Eq, Hash, Structural)]
pub struct DisconnectRequestBody;

impl DisconnectRequestBody {
    pub fn new() -> (r: DisconnectRequestBody)
        ensures
            r == DisconnectRequestBody,
    {
        DisconnectRequestBody
    }
}

/// `POST disconnect` answer body; it holds nothing.
#[derive(Debug, Clone, Copy, PartialEq, Eq, Hash, Structural)]
pub struct DisconnectResponseBody;

impl DisconnectResponseBody {
    pub fn new() -> (r: DisconnectResponseBody)
        ensures
            r == DisconnectResponseBody,
    {
        DisconnectResponseBody
    }
}

/// `POST disconnect` request: the client leaves the server.
#[derive(Debug, Clone, PartialEq, Eq, Hash)]
pub struct DisconnectRequest(pub Request<DisconnectRequestBody>);

impl DisconnectRequest {
    /// A request signed with `client_secret`.
    pub fn new(client_secret: &SecretKey) -> (r: DisconnectRequest)
        ensures
            r.0.public_key@ == public_key_of(client_secret@),
            r.0.spec_is_valid(),
    {
        DisconnectRequest(Request::new(client_secret, DisconnectRequestBody))
    }

    /// Checks the envelope.
    pub fn validate(&self) -> (r: Result<bool, ValidationError>)
        ensures
            r == Ok::<bool, ValidationError>(self.0.spec_is_valid()),
    {
        self.0.validate()
    }
}

/// `POST disconnect` response.
#[derive(Debug, Clone, PartialEq, Eq, Hash)]
pub struct DisconnectResponse(pub Response<DisconnectResponseBody>);

impl DisconnectResponse {
    /// A success signed by the server over the request's seed.
    pub fn success(status: ResponseStatus, server_secret: &SecretKey, proof_seed: u64) -> (r: DisconnectResponse)
        ensures
            r.0.spec_status() == status,
            r.0.spec_is_valid(proof_seed),
            r.0 matches Response::Success { public_key, proof_sign, .. } && public_key@
                == public_key_of(server_secret@) && proof_sign@ == signature_of(
                server_secret@,
                be_bytes_spec(proof_seed),
            ),
    {
        DisconnectResponse(Response::signed(status, server_secret, proof_seed, DisconnectResponseBody))
    }

    /// A failure with a reason.
    pub fn error(status: ResponseStatus, reason: &str) -> (r: DisconnectResponse)
        ensures
            r.0 matches Response::Error { status: s, reason: text } && s == status && text@ == reason@,
    {
        DisconnectResponse(Response::error(status, reason))
    }

    /// Checks the response's proof of the request's seed.
    pub fn validate(&self, proof_seed: u64) -> (r: Result<bool, ValidationError>)
        ensures
            r == Ok::<bool, ValidationError>(self.0.spec_is_valid(proof_seed)),
    {
        self.0.validate(proof_seed)
    }
}

/// `POST announce` body: a record the sender wants the server to know.
#[derive(Debug, Clone, PartialEq, Eq, Hash)]
pub enum AnnounceRequestBody {
    /// A client and the server that hosts it.
    Client { client: Client, server: Server },
    /// A server.
    Server { server: Server },
}

/// `POST announce` answer body; it holds nothing.
#[derive(Debug, Clone, Copy, PartialEq, Eq, Hash, Structural)]
pub struct AnnounceResponseBody;

/// `POST lookup` body: the key sought, and the type wanted.
#[derive(Debug, Clone, PartialEq, Eq, Hash)]
pub struct LookupRequestBody {
    pub public_key: PublicKey,
    pub client_type: ClientType,
}

/// `POST lookup` answer body.
#[derive(Debug, Clone, PartialEq, Eq, Hash)]
pub enum LookupResponseBody {
    /// The client is connected to this server.
    Local { client: Client, available: bool },
    /// The client was heard of at another server.
    Remote { client: Client, server: Server, available: bool },
    /// Not known here: the servers to ask next.
    Hint { servers: Vec<Server> },
}

/// `POST send` body: a message to deposit in a receiver's inbox.
#[derive(Debug, Clone, PartialEq, Eq, Hash)]
pub struct SendRequestBody {
    pub sender: Sender,
    pub receiver_public: PublicKey,
    pub channel: String,
    pub message: Message,
}

/// `POST send` answer body; it holds nothing.
#[derive(Debug, Clone, Copy, PartialEq, Eq, Hash, Structural)]
pub struct SendResponseBody;

/// `POST poll` body: the channel to read, and at most how many messages.
#[derive(Debug, Clone, PartialEq, Eq, Hash)]
pub struct PollRequestBody {
    pub channel: String,
    pub limit: Option<u64>,
}

/// `POST poll` answer body: the messages read, and how many remain.
#[derive(Debug, Clone, PartialEq, Eq, Hash)]
pub struct PollResponseBody {
    pub messages: Vec<MessageInfo>,
    pub remaining: u64,
}

} // verus!
