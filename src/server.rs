//! The server: its routing table and key, and what it answers to each verb.
//!
//! Every answer to a request first checks the request's envelope: one whose
//! proof does not verify is answered `RequestValidationFailed` and changes
//! nothing. Every success is signed with the server's key over the request's
//! seed.
use vstd::prelude::*;

use std::sync::Arc;

use crate::crypto::{SecretKey, public_key_of};
use crate::envelope::{Request, Response, ResponseStatus};
use crate::requests::{
    AnnounceRequestBody, AnnounceResponseBody, ClientsResponseBody, ConnectRequest,
    ConnectResponse, DisconnectRequest, DisconnectResponse, InfoResponseBody, LookupRequestBody,
    LookupResponseBody, ServersResponseBody,
};
use crate::router::{Router, by_distance, server_views};
use crate::types::{Client, ClientType, ClientView, ServerView};

verus! {

/// The version of the protocol standard this server speaks.
pub const STANDARD_VERSION: u64 = 1;

/// Whether `r` is a success with status `Success` signed with `secret` over
/// `proof_seed`.
pub open spec fn signed_success<R>(r: Response<R>, secret: Seq<u8>, proof_seed: u64) -> bool {
    &&& r.spec_status() == ResponseStatus::Success
    &&& r.spec_is_valid(proof_seed)
    &&& r matches Response::Success { public_key, .. } && public_key@ == public_key_of(secret)
}

/// Whether `r` is the answer to a request that failed validation.
pub open spec fn validation_failed<R>(r: Response<R>) -> bool {
    r matches Response::Error { status, .. } && status == ResponseStatus::RequestValidationFailed
}

/// The body of a success.
pub open spec fn body_of<R>(r: Response<R>) -> Option<R> {
    match r {
        Response::Success { response, .. } => Some(response),
        Response::Error { .. } => None,
    }
}

/// Whether a local record answers a lookup for type `t`.
pub open spec fn local_answers(record: Option<ClientView>, t: ClientType) -> bool {
    record matches Some(c) && c.info.client_type.spec_matches(t)
}

/// Whether a remote record answers a lookup for type `t`.
pub open spec fn remote_answers(record: Option<(ClientView, ServerView)>, t: ClientType) -> bool {
    record matches Some((c, _)) && c.info.client_type.spec_matches(t)
}

/// A server's state.
pub struct ServerDriver {
    pub router: Router,
    pub secret_key: SecretKey,
    /// The server's own transport address.
    pub address: String,
}

impl ServerDriver {
    pub fn new(router: Router, secret_key: SecretKey, address: String) -> (r: ServerDriver)
        ensures
            r == (ServerDriver { router, secret_key, address }),
    {
        ServerDriver { router, secret_key, address }
    }

    /// `GET info`.
    pub fn info(&self) -> (r: InfoResponseBody)
        ensures
            r.public_key@ == public_key_of(self.secret_key@),
            r.standard == STANDARD_VERSION,
    {
        InfoResponseBody { public_key: self.secret_key.public_key(), standard: STANDARD_VERSION }
    }

    /// `GET clients`.
    pub fn clients(&self) -> (r: ClientsResponseBody)
        ensures
            r.clients@.len() == self.router.local_clients.records().len(),
            forall|j: int|
                0 <= j < r.clients@.len() ==> #[trigger] r.clients@[j]@
                    == self.router.local_clients.records()[j]@,
    {
        ClientsResponseBody { clients: self.router.local_clients() }
    }

    /// `GET servers`.
    pub fn servers(&self) -> (r: ServersResponseBody)
        ensures
            r.servers@.len() == self.router.servers.records().len(),
            forall|j: int|
                0 <= j < r.servers@.len() ==> #[trigger] r.servers@[j]@
                    == self.router.servers.records()[j]@,
    {
        ServersResponseBody { servers: self.router.servers() }
    }

    /// `POST connect`: a client with a certificate for this server is filed
    /// as connected here.
    pub fn connect(&mut self, request: ConnectRequest) -> (r: ConnectResponse)
        ensures
            final(self).secret_key == old(self).secret_key,
            request.spec_is_valid(public_key_of(old(self).secret_key@)) ==> {
                &&& signed_success(r.0, old(self).secret_key@, request.0.proof_seed)
                &&& forall|k: Seq<u8>|
                    #[trigger] final(self).router.local_clients.get(k) == if k
                        == request.0.public_key@ {
                        Some(
                            crate::types::ClientView {
                                public_key: request.0.public_key@,
                                certificate: request.0.request.certificate.sign@,
                                info: request.0.request.client,
                            },
                        )
                    } else {
                        old(self).router.local_clients.get(k)
                    }
                &&& forall|k: Seq<u8>|
                    #[trigger] final(self).router.remote_clients.get(k) == if k
                        == request.0.public_key@ {
                        None
                    } else {
                        old(self).router.remote_clients.get(k)
                    }
                &&& final(self).router.servers == old(self).router.servers
            },
            !request.spec_is_valid(public_key_of(old(self).secret_key@)) ==> {
                &&& validation_failed(r.0)
                &&& final(self).router == old(self).router
            },
    {
        let server_public = self.secret_key.public_key();
        match request.validate(&server_public) {
            Ok(true) => {},
            Ok(false) => {
                return ConnectResponse::error(
                    ResponseStatus::RequestValidationFailed,
                    "Request validation failed",
                );
            },
            Err(_) => {
                return ConnectResponse::error(ResponseStatus::ServerError, "Failed to validate request");
            },
        }
        let proof_seed = request.0.proof_seed;
        let client = Client::new(request.0.public_key, request.0.request.certificate, request.0.request.client);
        self.router.index_local_client(client);
        ConnectResponse::success(ResponseStatus::Success, &self.secret_key, proof_seed)
    }

    /// `POST disconnect`: the requesting client is no longer connected here.
    pub fn disconnect(&mut self, request: DisconnectRequest) -> (r: DisconnectResponse)
        ensures
            final(self).secret_key == old(self).secret_key,
            request.0.spec_is_valid() ==> {
                &&& signed_success(r.0, old(self).secret_key@, request.0.proof_seed)
                &&& forall|k: Seq<u8>|
                    #[trigger] final(self).router.local_clients.get(k) == if k
                        == request.0.public_key@ {
                        None
                    } else {
                        old(self).router.local_clients.get(k)
                    }
                &&& final(self).router.remote_clients == old(self).router.remote_clients
                &&& final(self).router.servers == old(self).router.servers
            },
            !request.0.spec_is_valid() ==> {
                &&& validation_failed(r.0)
                &&& final(self).router == old(self).router
            },
    {
        match request.validate() {
            Ok(true) => {},
            Ok(false) => {
                return DisconnectResponse::error(
                    ResponseStatus::RequestValidationFailed,
                    "Request validation failed",
                );
            },
            Err(_) => {
                return DisconnectResponse::error(
                    ResponseStatus::ServerError,
                    "Failed to validate request",
                );
            },
        }
        self.router.disconnect(&request.0.public_key);
        DisconnectResponse::success(ResponseStatus::Success, &self.secret_key, request.0.proof_seed)
    }

    /// `POST announce`: files the announced remote client or peer server.
    pub fn announce(&mut self, request: Request<AnnounceRequestBody>) -> (r: Response<AnnounceResponseBody>)
        ensures
            final(self).secret_key == old(self).secret_key,
            request.spec_is_valid() ==> {
                &&& signed_success(r, old(self).secret_key@, request.proof_seed)
                &&& final(self).router.local_clients == old(self).router.local_clients
                &&& match request.request {
                    AnnounceRequestBody::Client { client, server } => {
                        &&& old(self).router.local_clients.get(client.public_key@) is Some
                            ==> final(self).router == old(self).router
                        &&& old(self).router.local_clients.get(client.public_key@) is None
                            ==> forall|k: Seq<u8>|
                            #[trigger] final(self).router.remote_clients.get(k) == if k
                                == client.public_key@ {
                                Some((client@, server@))
                            } else {
                                old(self).router.remote_clients.get(k)
                            }
                        &&& final(self).router.servers == old(self).router.servers
                    },
                    AnnounceRequestBody::Server { server } => {
                        &&& forall|k: Seq<u8>|
                            #[trigger] final(self).router.servers.get(k) == if k
                                == server.public_key@ {
                                Some(server@)
                            } else {
                                old(self).router.servers.get(k)
                            }
                        &&& final(self).router.remote_clients == old(self).router.remote_clients
                    },
                }
            },
            !request.spec_is_valid() ==> {
                &&& validation_failed(r)
                &&& final(self).router == old(self).router
            },
    {
        match request.validate() {
            Ok(true) => {},
            Ok(false) => {
                return Response::error(ResponseStatus::RequestValidationFailed, "Request validation failed");
            },
            Err(_) => {
                return Response::error(ResponseStatus::ServerError, "Failed to validate request");
            },
        }
        let proof_seed = request.proof_seed;
        match request.request {
            AnnounceRequestBody::Client { client, server } => {
                self.router.index_remote_client(client, server);
            },
            AnnounceRequestBody::Server { server } => {
                self.router.index_server(server);
            },
        }
        Response::signed(ResponseStatus::Success, &self.secret_key, proof_seed, AnnounceResponseBody)
    }

    /// `POST lookup`: the client connected here if its type answers the
    /// lookup, else the one heard of elsewhere if its type answers, else the
    /// peers to ask next, closest to the key first.
    pub fn lookup(&self, request: Request<LookupRequestBody>) -> (r: Response<LookupResponseBody>)
        ensures
            request.spec_is_valid() ==> {
                let k = request.request.public_key@;
                let t = request.request.client_type;
                &&& signed_success(r, self.secret_key@, request.proof_seed)
                &&& if local_answers(self.router.local_clients.get(k), t) {
                    body_of(r) matches Some(LookupResponseBody::Local { client, available })
                        && Some(client@) == self.router.local_clients.get(k) && available
                } else if remote_answers(self.router.remote_clients.get(k), t) {
                    body_of(r) matches Some(LookupResponseBody::Remote { client, server, available })
                        && Some((client@, server@)) == self.router.remote_clients.get(k) && available
                } else {
                    body_of(r) matches Some(LookupResponseBody::Hint { servers })
                        && server_views(servers@).to_multiset() == server_views(
                        self.router.servers.records(),
                    ).to_multiset() && by_distance(server_views(servers@), k)
                }
            },
            !request.spec_is_valid() ==> validation_failed(r),
    {
        match request.validate() {
            Ok(true) => {},
            Ok(false) => {
                return Response::error(ResponseStatus::RequestValidationFailed, "Request validation failed");
            },
            Err(_) => {
                return Response::error(ResponseStatus::ServerError, "Failed to validate request");
            },
        }
        let key = &request.request.public_key;
        let client_type = request.request.client_type;
        if let Some((client, true)) = self.router.lookup_local_client(key, client_type) {
            let body = LookupResponseBody::Local { client, available: true };
            return Response::signed(ResponseStatus::Success, &self.secret_key, request.proof_seed, body);
        }
        if let Some((client, server, true)) = self.router.lookup_remote_client(key, client_type) {
            let body = LookupResponseBody::Remote { client, server, available: true };
            return Response::signed(ResponseStatus::Success, &self.secret_key, request.proof_seed, body);
        }
        let body = LookupResponseBody::Hint {
            servers: self.router.lookup_remote_client_hint(key, client_type),
        };
        Response::signed(ResponseStatus::Success, &self.secret_key, request.proof_seed, body)
    }

    /// The answer to a request whose envelope does not verify, or `None` if
    /// it verifies.
    pub fn reject<B, R>(&self, request: &Request<B>) -> (r: Option<Response<R>>)
        ensures
            match r {
                Some(resp) => !request.spec_is_valid() && validation_failed(resp),
                None => request.spec_is_valid(),
            },
    {
        match request.validate() {
            Ok(true) => None,
            _ => Some(Response::error(ResponseStatus::RequestValidationFailed, "Request validation failed")),
        }
    }

    /// The answer to a valid request once its work is done: `outcome` is the
    /// body, or why the work failed.
    pub fn answer<R>(&self, proof_seed: u64, outcome: Result<R, String>) -> (r: Response<R>)
        ensures
            match outcome {
                Ok(body) => signed_success(r, self.secret_key@, proof_seed) && body_of(r) == Some(body),
                Err(reason) => r matches Response::Error { status, reason: text } && status
                    == ResponseStatus::ServerError && text@ == reason@,
            },
    {
        match outcome {
            Ok(body) => Response::signed(ResponseStatus::Success, &self.secret_key, proof_seed, body),
            Err(reason) => Response::Error { status: ResponseStatus::ServerError, reason },
        }
    }
}

/// Relies on `Arc::clone`: the result points at the same value.
#[verifier::external_body]
fn share<D>(d: &Arc<D>) -> (r: Arc<D>)
    ensures
        *r == **d,
{
    Arc::clone(d)
}

/// The HTTP method of a route.
#[derive(Debug, Clone, Copy, PartialEq, Eq, Hash, Structural)]
pub enum HttpMethod {
    Get,
    Post,
}

/// The verbs a server answers.
#[derive(Debug, Clone, Copy, PartialEq, Eq, Hash, Structural)]
pub enum Verb {
    Info,
    Clients,
    Servers,
    Connect,
    Disconnect,
    Announce,
    Lookup,
    Send,
    Poll,
}

/// A route: the method and path under which a verb is served.
#[derive(Debug, Clone, Copy, PartialEq, Eq, Hash)]
pub struct Route {
    pub method: HttpMethod,
    pub path: &'static str,
    pub verb: Verb,
}

/// What a route holds.
pub struct RouteView {
    pub method: HttpMethod,
    pub path: Seq<char>,
    pub verb: Verb,
}

impl View for Route {
    type V = RouteView;

    open spec fn view(&self) -> RouteView {
        RouteView { method: self.method, path: self.path@, verb: self.verb }
    }
}

/// The nine routes of the REST API, under `/api/v1`: the three reads by
/// `GET`, the six others by `POST`.
pub open spec fn api_routes() -> Seq<RouteView> {
    seq![
        RouteView { method: HttpMethod::Get, path: "/api/v1/info"@, verb: Verb::Info },
        RouteView { method: HttpMethod::Get, path: "/api/v1/clients"@, verb: Verb::Clients },
        RouteView { method: HttpMethod::Get, path: "/api/v1/servers"@, verb: Verb::Servers },
        RouteView { method: HttpMethod::Post, path: "/api/v1/connect"@, verb: Verb::Connect },
        RouteView { method: HttpMethod::Post, path: "/api/v1/disconnect"@, verb: Verb::Disconnect },
        RouteView { method: HttpMethod::Post, path: "/api/v1/announce"@, verb: Verb::Announce },
        RouteView { method: HttpMethod::Post, path: "/api/v1/lookup"@, verb: Verb::Lookup },
        RouteView { method: HttpMethod::Post, path: "/api/v1/send"@, verb: Verb::Send },
        RouteView { method: HttpMethod::Post, path: "/api/v1/poll"@, verb: Verb::Poll },
    ]
}

/// The REST front of a server: its HTTP client, its HTTP server, the routes
/// it serves, and the shared server state that the routes answer from. The
/// transport serves each route by calling the verb's method on the state.
pub struct Server<HttpClientExt, HttpServerExt, DriverExt> {
    http_client: HttpClientExt,
    http_server: HttpServerExt,
    routes: Vec<Route>,
    driver: Arc<DriverExt>,
}

impl<HttpClientExt, HttpServerExt, DriverExt> Server<HttpClientExt, HttpServerExt, DriverExt> {
    pub closed spec fn spec_http_client(&self) -> HttpClientExt {
        self.http_client
    }

    pub closed spec fn spec_http_server(&self) -> HttpServerExt {
        self.http_server
    }

    pub closed spec fn spec_driver(&self) -> DriverExt {
        *self.driver
    }

    pub closed spec fn spec_routes(&self) -> Seq<RouteView> {
        self.routes@.map_values(|r: Route| r@)
    }

    /// A front that serves the nine API routes from `driver`.
    pub fn new(http_client: HttpClientExt, http_server: HttpServerExt, driver: Arc<DriverExt>) -> (r: Self)
        ensures
            r.spec_http_client() == http_client,
            r.spec_http_server() == http_server,
            r.spec_driver() == *driver,
            r.spec_routes() == api_routes(),
    {
        let routes = vec![
            Route { method: HttpMethod::Get, path: "/api/v1/info", verb: Verb::Info },
            Route { method: HttpMethod::Get, path: "/api/v1/clients", verb: Verb::Clients },
            Route { method: HttpMethod::Get, path: "/api/v1/servers", verb: Verb::Servers },
            Route { method: HttpMethod::Post, path: "/api/v1/connect", verb: Verb::Connect },
            Route { method: HttpMethod::Post, path: "/api/v1/disconnect", verb: Verb::Disconnect },
            Route { method: HttpMethod::Post, path: "/api/v1/announce", verb: Verb::Announce },
            Route { method: HttpMethod::Post, path: "/api/v1/lookup", verb: Verb::Lookup },
            Route { method: HttpMethod::Post, path: "/api/v1/send", verb: Verb::Send },
            Route { method: HttpMethod::Post, path: "/api/v1/poll", verb: Verb::Poll },
        ];
        let r = Server { http_client, http_server, routes, driver };
        assert(r.spec_routes() =~= api_routes());
        r
    }

    /// The routes served.
    pub fn routes(&self) -> (r: &Vec<Route>)
        ensures
            r@.map_values(|x: Route| x@) == self.spec_routes(),
    {
        &self.routes
    }

    /// The verb served under `method` and `path`, if any.
    pub fn route(&self, method: HttpMethod, path: &str) -> (r: Option<Verb>)
        ensures
            match r {
                Some(v) => exists|i: int|
                    0 <= i < self.spec_routes().len() && #[trigger] self.spec_routes()[i]
                        == (RouteView { method, path: path@, verb: v }),
                None => forall|i: int|
                    0 <= i < self.spec_routes().len() ==> !(#[trigger] self.spec_routes()[i].method
                        == method && self.spec_routes()[i].path == path@),
            },
    {
        let mut i: usize = 0;
        while i < self.routes.len()
            invariant
                i <= self.routes@.len(),
                forall|j: int|
                    0 <= j < i ==> !(#[trigger] self.spec_routes()[j].method == method
                        && self.spec_routes()[j].path == path@),
            decreases self.routes@.len() - i,
        {
            let route = &self.routes[i];
            assert(self.spec_routes()[i as int] == route@);
            if route.method == method && crate::text::str_eq(route.path, path) {
                return Some(route.verb);
            }
            i += 1;
        }
        None
    }

    pub fn http_client(&self) -> (r: &HttpClientExt)
        ensures
            *r == self.spec_http_client(),
    {
        &self.http_client
    }

    pub fn http_server(&self) -> (r: &HttpServerExt)
        ensures
            *r == self.spec_http_server(),
    {
        &self.http_server
    }

    /// A shared handle on the server state.
    pub fn driver(&self) -> (r: Arc<DriverExt>)
        ensures
            *r == self.spec_driver(),
    {
        share(&self.driver)
    }
}

} // verus!
