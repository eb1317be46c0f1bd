//! Addresses of nodes and services, written as URIs.
//!
//! | URI                                       | Address                     |
//! | ----------------------------------------- | --------------------------- |
//! | `hyperborea://<key>`, `hyp://<key>`       | thin client                 |
//! | `hyperborea://<type>:<key>` (also `hyp`)  | client of the named type    |
//! | `hyperborea-client://<key>` (`hyp-client`) | thin client                |
//! | `hyperborea-server://<key>` (`hyp-server`) | server client              |
//! | `hyperborea-file://<key>` (`hyp-file`)    | file client                 |
//! | `http://<address>`, `https://<address>`   | HTTP(S) server              |
//!
//! Any other text is kept as a raw address.
use vstd::prelude::*;

use crate::crypto::{CryptoError, PublicKey, base64_char, key_from_base64};
use crate::text::{
    find_scheme_separator, first_scheme_separator, has_prefix, scheme_separator_at, str_eq, strip_prefix,
};
use crate::types::ClientType;

verus! {

#[derive(Debug, Clone, PartialEq, Eq, Hash)]
pub enum Address {
    /// An overlay client, named by its public key.
    Hyperborea { public_key: PublicKey, client_type: ClientType },
    /// An HTTP server.
    Http { address: String },
    /// An HTTPS server.
    Https { address: String },
    /// Anything else, kept as it was written (after its scheme, if any).
    Raw(String),
}

/// The scheme of a URI: what precedes its first "://", or nothing.
pub open spec fn uri_scheme(s: Seq<char>) -> Seq<char> {
    match first_scheme_separator(s, 0) {
        Some(i) => s.subrange(0, i as int),
        None => Seq::empty(),
    }
}

/// The body of a URI: what follows its first "://", or the whole text.
pub open spec fn uri_body(s: Seq<char>) -> Seq<char> {
    match first_scheme_separator(s, 0) {
        Some(i) => s.subrange(i as int + 3, s.len() as int),
        None => s,
    }
}

/// How a URI reads, before any key is decoded.
pub enum UriMeaning {
    /// A client of the given type whose key is the given base64 text.
    Key(ClientType, Seq<char>),
    Http(Seq<char>),
    Https(Seq<char>),
    Raw(Seq<char>),
}

/// `body` without `prefix`.
pub open spec fn after(body: Seq<char>, prefix: Seq<char>) -> Seq<char> {
    body.subrange(prefix.len() as int, body.len() as int)
}

/// The body of a `hyperborea://` URI: an optional `<type>:` and a key.
pub open spec fn qualified_key(body: Seq<char>) -> UriMeaning {
    if has_prefix(body, "thin:"@) {
        UriMeaning::Key(ClientType::Thin, after(body, "thin:"@))
    } else if has_prefix(body, "thick:"@) {
        UriMeaning::Key(ClientType::Thick, after(body, "thick:"@))
    } else if has_prefix(body, "server:"@) {
        UriMeaning::Key(ClientType::Server, after(body, "server:"@))
    } else if has_prefix(body, "file:"@) {
        UriMeaning::Key(ClientType::File, after(body, "file:"@))
    } else {
        UriMeaning::Key(ClientType::Thin, body)
    }
}

/// How the URI `s` reads.
pub open spec fn uri_meaning(s: Seq<char>) -> UriMeaning {
    let scheme = uri_scheme(s);
    let body = uri_body(s);
    if scheme == "hyperborea"@ || scheme == "hyp"@ {
        qualified_key(body)
    } else if scheme == "hyperborea-client"@ || scheme == "hyp-client"@ {
        UriMeaning::Key(ClientType::Thin, body)
    } else if scheme == "hyperborea-server"@ || scheme == "hyp-server"@ {
        UriMeaning::Key(ClientType::Server, body)
    } else if scheme == "hyperborea-file"@ || scheme == "hyp-file"@ {
        UriMeaning::Key(ClientType::File, body)
    } else if scheme == "http"@ {
        UriMeaning::Http(body)
    } else if scheme == "https"@ {
        UriMeaning::Https(body)
    } else {
        UriMeaning::Raw(body)
    }
}

/// What parsing the URI `s` gives.
pub open spec fn parsed_as(s: Seq<char>, r: Result<Address, CryptoError>) -> bool {
    match uri_meaning(s) {
        UriMeaning::Key(t, text) => match r {
            Ok(Address::Hyperborea { public_key, client_type }) => client_type == t
                && key_from_base64(text, Ok(public_key)),
            Ok(_) => false,
            Err(e) => key_from_base64(text, Err(e)),
        },
        UriMeaning::Http(a) => r matches Ok(Address::Http { address }) && address@ == a,
        UriMeaning::Https(a) => r matches Ok(Address::Https { address }) && address@ == a,
        UriMeaning::Raw(a) => r matches Ok(Address::Raw(address)) && address@ == a,
    }
}

proof fn lemma_first_separator(s: Seq<char>, j: nat, i: nat)
    requires
        j <= i,
        scheme_separator_at(s, i as int),
        forall|k: int| j <= k < i ==> s[k] != ':',
    ensures
        first_scheme_separator(s, j) == Some(i),
    decreases i - j,
{
    if j < i {
        lemma_first_separator(s, j + 1, i);
    }
}

/// The URI `<scheme>://<text>`, where the scheme holds no `:`, has that
/// scheme and body.
proof fn lemma_scheme_split(scheme: Seq<char>, text: Seq<char>)
    requires
        forall|k: int| 0 <= k < scheme.len() ==> scheme[k] != ':',
    ensures
        uri_scheme(scheme + "://"@ + text) == scheme,
        uri_body(scheme + "://"@ + text) == text,
{
    reveal_strlit("://");
    let s = scheme + "://"@ + text;
    lemma_first_separator(s, 0, scheme.len());
    assert(s.subrange(0, scheme.len() as int) =~= scheme);
    assert(s.subrange(scheme.len() as int + 3, s.len() as int) =~= text);
}

/// A `hyperborea://` or `hyp://` URI whose body is base64 text, as a
/// public key's address is, reads as a thin client with that key text:
/// such text holds no `:`, so no type prefix is taken from it.
pub proof fn lemma_plain_key_uri(text: Seq<char>)
    requires
        forall|i: int| 0 <= i < text.len() ==> base64_char(#[trigger] text[i]),
    ensures
        uri_meaning("hyperborea"@ + "://"@ + text) == UriMeaning::Key(ClientType::Thin, text),
        uri_meaning("hyp"@ + "://"@ + text) == UriMeaning::Key(ClientType::Thin, text),
{
    reveal_strlit("hyperborea");
    reveal_strlit("hyp");
    reveal_strlit("thin:");
    reveal_strlit("thick:");
    reveal_strlit("server:");
    reveal_strlit("file:");
    lemma_scheme_split("hyperborea"@, text);
    lemma_scheme_split("hyp"@, text);
    if text.len() > 4 {
        assert(base64_char(text[4]));
    }
    if text.len() > 5 {
        assert(base64_char(text[5]));
    }
    if text.len() > 6 {
        assert(base64_char(text[6]));
    }
    assert(!has_prefix(text, "thin:"@)) by {
        if has_prefix(text, "thin:"@) {
            assert(text.subrange(0, 5)[4] == text[4]);
        }
    }
    assert(!has_prefix(text, "thick:"@)) by {
        if has_prefix(text, "thick:"@) {
            assert(text.subrange(0, 6)[5] == text[5]);
        }
    }
    assert(!has_prefix(text, "server:"@)) by {
        if has_prefix(text, "server:"@) {
            assert(text.subrange(0, 7)[6] == text[6]);
        }
    }
    assert(!has_prefix(text, "file:"@)) by {
        if has_prefix(text, "file:"@) {
            assert(text.subrange(0, 5)[4] == text[4]);
        }
    }
}

fn key_address(key_text: &str, client_type: ClientType) -> (r: Result<Address, CryptoError>)
    ensures
        match r {
            Ok(Address::Hyperborea { public_key, client_type: t }) => t == client_type
                && key_from_base64(key_text@, Ok(public_key)),
            Ok(_) => false,
            Err(e) => key_from_base64(key_text@, Err(e)),
        },
{
    match PublicKey::from_base64(key_text) {
        Ok(public_key) => Ok(Address::Hyperborea { public_key, client_type }),
        Err(e) => Err(e),
    }
}

fn qualified_address(body: &str) -> (r: Result<Address, CryptoError>)
    ensures
        match qualified_key(body@) {
            UriMeaning::Key(t, text) => match r {
                Ok(Address::Hyperborea { public_key, client_type }) => client_type == t
                    && key_from_base64(text, Ok(public_key)),
                Ok(_) => false,
                Err(e) => key_from_base64(text, Err(e)),
            },
            _ => false,
        },
{
    if let Some(rest) = strip_prefix(body, "thin:") {
        key_address(rest, ClientType::Thin)
    } else if let Some(rest) = strip_prefix(body, "thick:") {
        key_address(rest, ClientType::Thick)
    } else if let Some(rest) = strip_prefix(body, "server:") {
        key_address(rest, ClientType::Server)
    } else if let Some(rest) = strip_prefix(body, "file:") {
        key_address(rest, ClientType::File)
    } else {
        key_address(body, ClientType::Thin)
    }
}

/// Parses an address from its URI.
pub fn parse(uri: &str) -> (r: Result<Address, CryptoError>)
    ensures
        parsed_as(uri@, r),
{
    let n = uri.unicode_len();
    let (scheme, body) = match find_scheme_separator(uri) {
        Some(i) => (uri.substring_char(0, i), uri.substring_char(i + 3, n)),
        None => (uri.substring_char(0, 0), uri),
    };
    assert(scheme@ == uri_scheme(uri@));
    assert(body@ == uri_body(uri@));
    if str_eq(scheme, "hyperborea") || str_eq(scheme, "hyp") {
        qualified_address(body)
    } else if str_eq(scheme, "hyperborea-client") || str_eq(scheme, "hyp-client") {
        key_address(body, ClientType::Thin)
    } else if str_eq(scheme, "hyperborea-server") || str_eq(scheme, "hyp-server") {
        key_address(body, ClientType::Server)
    } else if str_eq(scheme, "hyperborea-file") || str_eq(scheme, "hyp-file") {
        key_address(body, ClientType::File)
    } else if str_eq(scheme, "http") {
        Ok(Address::Http { address: body.to_owned() })
    } else if str_eq(scheme, "https") {
        Ok(Address::Https { address: body.to_owned() })
    } else {
        Ok(Address::Raw(body.to_owned()))
    }
}

impl std::str::FromStr for Address {
    type Err = CryptoError;

    fn from_str(uri: &str) -> Result<Address, CryptoError> {
        parse(uri)
    }
}

} // verus!
