//! Finding the address of a server by its name.
//!
//! One server has a fixed address. Every other one is looked up in the server
//! directory, by a GET request that whoever owns the HTTP client makes; what
//! to ask for, and what the answer means, is decided here.

use crate::error::ClientError;
use crate::json::{
    get_number, get_text, json_parse, json_tree, number_member, parse, shape_error, text_member,
    Json,
};
use crate::number::{decimal, push_decimal};
use crate::text::str_eq;
use serde_json::Value;
use url::Url;
use vstd::prelude::*;
use vstd::string::StringExecFns;

verus! {

/// An address that `url` has parsed. Opaque here; it is only carried to the
/// caller.
#[verifier::external_type_specification]
#[verifier::external_body]
pub struct ExUrl(url::Url);

/// The address that `url` parses a text to, or nothing where it rejects the
/// text.
pub uninterp spec fn url_parse(text: Seq<char>) -> Option<Url>;

/// Calls `Url::parse`. Believed: the outcome is a function of the text alone,
/// which [`url_parse`] names: the address, or nothing where the call fails.
#[verifier::external_body]
fn parse_url(text: &str) -> (r: Result<Url, url::ParseError>)
    ensures
        match r {
            Ok(address) => url_parse(text@) == Some(address),
            Err(_) => url_parse(text@) is None,
        },
{
    Url::parse(text)
}

/// Name of the server whose address is fixed.
pub const MAIN_SERVER: &'static str = "showdown";

/// Address of the server whose address is fixed.
pub const MAIN_SERVER_URL: &'static str = "wss://sim3.psim.us/showdown/websocket";

/// Where to learn the address of a server.
#[derive(Debug)]
pub enum Lookup {
    /// The address is known: connect to it.
    Known(&'static str),
    /// Ask the server directory by a GET request to this address.
    Query(String),
}

/// What the server directory says of a server.
#[derive(Debug)]
pub struct Server {
    pub host: String,
    pub port: u16,
}

/// Address of the directory entry of the server `name`.
pub open spec fn directory_address(name: Seq<char>) -> Seq<char> {
    "https://pokemonshowdown.com/servers/"@ + name + ".json"@
}

/// Scheme under which a server listens on `port`: secure on 443, plain on
/// any other port.
pub open spec fn scheme_of(port: u16) -> Seq<char> {
    if port == 443 {
        "wss"@
    } else {
        "ws"@
    }
}

/// Address of the server that listens on `host` and `port`: scheme, host,
/// port and the fixed path, joined as they are.
pub open spec fn server_address(host: Seq<char>, port: u16) -> Seq<char> {
    scheme_of(port) + "://"@ + host + ":"@ + decimal(port as nat) + "/showdown/websocket"@
}

/// Host and port of a directory entry: an object whose member `host` is a
/// string and whose member `port` is a number that fits 16 bits.
pub open spec fn server_of_json(tree: Json) -> Option<(Seq<char>, u16)> {
    match (text_member(tree, "host"@), number_member(tree, "port"@)) {
        (Some(host), Some(port)) => if port <= u16::MAX {
            Some((host, port as u16))
        } else {
            None
        },
        _ => None,
    }
}

/// Host and port in the answer of the server directory.
pub open spec fn server_of_body(body: Seq<u8>) -> Option<(Seq<char>, u16)> {
    match json_parse(body) {
        Some(tree) => server_of_json(tree),
        None => None,
    }
}

/// Says where to learn the address of the server `name`.
pub fn lookup(name: &str) -> (r: Lookup)
    ensures
        match r {
            Lookup::Known(address) => name@ == MAIN_SERVER@ && address@ == MAIN_SERVER_URL@,
            Lookup::Query(address) => name@ != MAIN_SERVER@ && address@ == directory_address(
                name@,
            ),
        },
{
    if str_eq(name, MAIN_SERVER) {
        Lookup::Known(MAIN_SERVER_URL)
    } else {
        let mut address = String::from_str("https://pokemonshowdown.com/servers/");
        address.append(name);
        address.append(".json");
        Lookup::Query(address)
    }
}

impl Server {
    /// Reads a directory entry from its decoded object.
    pub fn from_json(value: &Value) -> (r: Option<Server>)
        ensures
            r is Some <==> server_of_json(json_tree(*value)) is Some,
            r matches Some(server) ==> Some((server.host@, server.port)) == server_of_json(
                json_tree(*value),
            ),
    {
        let host = match get_text(value, "host") {
            Some(host) => host,
            None => { return None; },
        };
        match get_number(value, "port") {
            Some(port) => if port <= 0xffff {
                Some(Server { host, port: port as u16 })
            } else {
                None
            },
            None => None,
        }
    }

    /// Reads a directory entry from the answer of the server directory. An
    /// answer that is no such entry is a JSON failure.
    pub fn from_body(body: &[u8]) -> (r: Result<Server, ClientError>)
        ensures
            match server_of_body(body@) {
                Some(entry) => r matches Ok(server) && (server.host@, server.port) == entry,
                None => r matches Err(ClientError::Json(_)),
            },
    {
        let value = match parse(body) {
            Ok(value) => value,
            Err(cause) => { return Err(ClientError::Json(cause)); },
        };
        match Server::from_json(&value) {
            Some(server) => Ok(server),
            None => Err(ClientError::Json(shape_error("the answer holds no host and port"))),
        }
    }

    /// The address to connect to.
    pub fn address(&self) -> (r: String)
        ensures
            r@ == server_address(self.host@, self.port),
    {
        let protocol = if self.port == 443 {
            "wss"
        } else {
            "ws"
        };
        let mut address = String::from_str(protocol);
        address.append("://");
        address.append(self.host.as_str());
        address.append(":");
        push_decimal(&mut address, self.port);
        address.append("/showdown/websocket");
        address
    }
}

/// Parses an address. Text that is no URL is a URL failure.
pub fn parse_address(address: &str) -> (r: Result<Url, ClientError>)
    ensures
        match url_parse(address@) {
            Some(parsed) => r == Ok::<Url, ClientError>(parsed),
            None => r matches Err(ClientError::Url(_)),
        },
{
    match parse_url(address) {
        Ok(parsed) => Ok(parsed),
        Err(cause) => Err(ClientError::Url(cause)),
    }
}

/// Takes the answer of the server directory, the bytes of its body or the
/// failure of the request, and gives the address of the server.
///
/// A failed request is the failure of the lookup. A body that is no
/// directory entry is a JSON failure. An entry whose address is no URL is a
/// URL failure.
pub fn resolve(response: Result<Vec<u8>, reqwest::Error>) -> (r: Result<Url, ClientError>)
    ensures
        match response {
            Err(cause) => r == Err::<Url, ClientError>(ClientError::Reqwest(cause)),
            Ok(body) => match server_of_body(body@) {
                None => r matches Err(ClientError::Json(_)),
                Some(entry) => match url_parse(server_address(entry.0, entry.1)) {
                    Some(parsed) => r == Ok::<Url, ClientError>(parsed),
                    None => r matches Err(ClientError::Url(_)),
                },
            },
        },
{
    let body = match response {
        Ok(body) => body,
        Err(cause) => { return Err(ClientError::Reqwest(cause)); },
    };
    let server = match Server::from_body(body.as_slice()) {
        Ok(server) => server,
        Err(failure) => { return Err(failure); },
    };
    let address = server.address();
    parse_address(address.as_str())
}

} // verus!
