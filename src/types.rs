//! Records that servers index and exchange: client types, client and server
//! records, connection certificates.
use vstd::prelude::*;

use crate::crypto::{PublicKey, SecretKey, public_key_of, signature_valid};

verus! {

/// What kind of node a client is; used as a lookup filter.
#[derive(Debug, Clone, Copy, PartialEq, Eq, Hash, Structural)]
pub enum ClientType {
    /// A transient client.
    Thin,
    /// A persistent client.
    Thick,
    /// A relay server acting as a client of another server.
    Server,
    /// An archival client.
    File,
}

impl ClientType {
    /// Whether a record of type `self` answers a lookup for `wanted`: a thin
    /// lookup takes any record, any other only its own type.
    pub open spec fn spec_matches(self, wanted: ClientType) -> bool {
        wanted == ClientType::Thin || wanted == self
    }

    pub fn matches(&self, wanted: ClientType) -> (r: bool)
        ensures
            r == self.spec_matches(wanted),
    {
        match wanted {
            ClientType::Thin => true,
            _ => *self == wanted,
        }
    }

    /// The type's lower-case name, as used in addresses.
    pub fn name(&self) -> (r: &'static str)
        ensures
            r@ == client_type_name(*self),
    {
        match self {
            ClientType::Thin => "thin",
            ClientType::Thick => "thick",
            ClientType::Server => "server",
            ClientType::File => "file",
        }
    }

    /// The type with the given lower-case name.
    pub fn from_name(name: &str) -> (r: Option<ClientType>)
        ensures
            match r {
                Some(t) => client_type_name(t) == name@,
                None => forall|t: ClientType| client_type_name(t) != name@,
            },
            forall|t: ClientType| #[trigger] client_type_name(t) == name@ ==> r == Some(t),
    {
        proof {
            lemma_client_type_names_differ();
            assert(client_type_name(ClientType::Thin) == "thin"@);
            assert(client_type_name(ClientType::Thick) == "thick"@);
            assert(client_type_name(ClientType::Server) == "server"@);
            assert(client_type_name(ClientType::File) == "file"@);
        }
        if crate::text::str_eq(name, "thin") {
            Some(ClientType::Thin)
        } else if crate::text::str_eq(name, "thick") {
            Some(ClientType::Thick)
        } else if crate::text::str_eq(name, "server") {
            Some(ClientType::Server)
        } else if crate::text::str_eq(name, "file") {
            Some(ClientType::File)
        } else {
            None
        }
    }
}

/// Different client types have different names.
pub proof fn lemma_client_type_names_differ()
    ensures
        forall|a: ClientType, b: ClientType|
            #[trigger] client_type_name(a) == #[trigger] client_type_name(b) ==> a == b,
{
    reveal_strlit("thin");
    reveal_strlit("thick");
    reveal_strlit("server");
    reveal_strlit("file");
    assert forall|a: ClientType, b: ClientType|
        #[trigger] client_type_name(a) == #[trigger] client_type_name(b) implies a == b by {
        if client_type_name(a) == client_type_name(b) && a != b {
            assert(client_type_name(a)[1] == client_type_name(b)[1]);
            assert(client_type_name(a).len() == client_type_name(b).len());
            if client_type_name(a).len() == 4 {
                assert(client_type_name(a)[0] == client_type_name(b)[0]);
            }
        }
    }
}

/// The lower-case name of a client type.
pub open spec fn client_type_name(t: ClientType) -> Seq<char> {
    match t {
        ClientType::Thin => "thin"@,
        ClientType::Thick => "thick"@,
        ClientType::Server => "server"@,
        ClientType::File => "file"@,
    }
}

impl std::str::FromStr for ClientType {
    type Err = ();

    fn from_str(s: &str) -> Result<ClientType, ()> {
        match ClientType::from_name(s) {
            Some(t) => Ok(t),
            None => Err(()),
        }
    }
}

/// Metadata a client advertises when it connects.
#[derive(Debug, Clone, Copy, PartialEq, Eq, Hash, Structural)]
pub struct ClientInfo {
    pub client_type: ClientType,
}

impl ClientInfo {
    pub fn new(client_type: ClientType) -> (r: ClientInfo)
        ensures
            r.client_type == client_type,
    {
        ClientInfo { client_type }
    }

    pub fn thin() -> (r: ClientInfo)
        ensures
            r.client_type == ClientType::Thin,
    {
        ClientInfo { client_type: ClientType::Thin }
    }

    pub fn thick() -> (r: ClientInfo)
        ensures
            r.client_type == ClientType::Thick,
    {
        ClientInfo { client_type: ClientType::Thick }
    }

    pub fn server() -> (r: ClientInfo)
        ensures
            r.client_type == ClientType::Server,
    {
        ClientInfo { client_type: ClientType::Server }
    }

    pub fn file() -> (r: ClientInfo)
        ensures
            r.client_type == ClientType::File,
    {
        ClientInfo { client_type: ClientType::File }
    }
}

/// A client's signature over the public key of the server it connects to:
/// its consent to be represented there.
#[derive(Debug, PartialEq, Eq, Hash)]
pub struct ConnectionCertificate {
    pub sign: Vec<u8>,
}

impl Clone for ConnectionCertificate {
    fn clone(&self) -> (r: ConnectionCertificate)
        ensures
            r.sign@ == self.sign@,
    {
        ConnectionCertificate { sign: self.sign.clone() }
    }
}

impl ConnectionCertificate {
    /// Whether the certificate was signed by `client` for `server`.
    pub open spec fn spec_is_valid(&self, client: Seq<u8>, server: Seq<u8>) -> bool {
        signature_valid(client, server, self.sign@)
    }

    /// Signs the server's public key with the client's secret key.
    pub fn new(client_secret: &SecretKey, server_public: &PublicKey) -> (r: ConnectionCertificate)
        ensures
            r.spec_is_valid(public_key_of(client_secret@), server_public@),
    {
        let data = server_public.to_bytes();
        ConnectionCertificate { sign: client_secret.create_signature(data.as_slice()) }
    }

    /// Whether the certificate was signed by `client_public` for
    /// `server_public`.
    pub fn validate(&self, client_public: &PublicKey, server_public: &PublicKey) -> (r: bool)
        ensures
            r == self.spec_is_valid(client_public@, server_public@),
    {
        let data = server_public.to_bytes();
        client_public.verify_signature(data.as_slice(), self.sign.as_slice())
    }
}

/// A client as a server indexes it.
#[derive(Debug, Clone, PartialEq, Eq, Hash)]
pub struct Client {
    pub public_key: PublicKey,
    pub certificate: ConnectionCertificate,
    pub info: ClientInfo,
}

/// What a client record holds: its key, its certificate and its metadata.
pub struct ClientView {
    pub public_key: Seq<u8>,
    pub certificate: Seq<u8>,
    pub info: ClientInfo,
}

impl View for Client {
    type V = ClientView;

    open spec fn view(&self) -> ClientView {
        ClientView {
            public_key: self.public_key@,
            certificate: self.certificate.sign@,
            info: self.info,
        }
    }
}

impl Client {
    pub fn new(public_key: PublicKey, certificate: ConnectionCertificate, info: ClientInfo) -> (r: Client)
        ensures
            r == (Client { public_key, certificate, info }),
    {
        Client { public_key, certificate, info }
    }

    /// A copy of the record.
    pub fn duplicate(&self) -> (r: Client)
        ensures
            r@ == self@,
    {
        Client {
            public_key: self.public_key.clone(),
            certificate: self.certificate.clone(),
            info: self.info,
        }
    }
}

/// A relay server: its public key and its transport address.
#[derive(Debug, Clone, PartialEq, Eq, Hash)]
pub struct Server {
    pub public_key: PublicKey,
    pub address: String,
}

/// What a server record holds: its key and its address.
pub struct ServerView {
    pub public_key: Seq<u8>,
    pub address: Seq<char>,
}

impl View for Server {
    type V = ServerView;

    open spec fn view(&self) -> ServerView {
        ServerView { public_key: self.public_key@, address: self.address@ }
    }
}

impl Server {
    pub fn new(public_key: PublicKey, address: String) -> (r: Server)
        ensures
            r == (Server { public_key, address }),
    {
        Server { public_key, address }
    }

    /// A copy of the record.
    pub fn duplicate(&self) -> (r: Server)
        ensures
            r@ == self@,
    {
        Server { public_key: self.public_key.clone(), address: self.address.clone() }
    }
}

/// Who sent a message, and through which server a reply reaches them.
#[derive(Debug, Clone, PartialEq, Eq, Hash)]
pub struct Sender {
    pub client: Client,
    pub server: Server,
}

impl View for Sender {
    type V = (ClientView, ServerView);

    open spec fn view(&self) -> (ClientView, ServerView) {
        (self.client@, self.server@)
    }
}

impl Sender {
    pub fn new(client: Client, server: Server) -> (r: Sender)
        ensures
            r == (Sender { client, server }),
    {
        Sender { client, server }
    }

    /// A copy of the pair.
    pub fn duplicate(&self) -> (r: Sender)
        ensures
            r@ == self@,
    {
        Sender { client: self.client.duplicate(), server: self.server.duplicate() }
    }
}

} // verus!
