//! What the tracing layer reads of an inbound request.

use vstd::prelude::*;
use crate::carrier::{HeaderFieldView, RequestHeaderCarrier};

verus! {

/// An inbound request, as far as its span depends on it.
///
/// Every field is a plain value that the server has already resolved. Nothing
/// is demanded of them: a value that is missing or malformed leaves an
/// attribute out, it is never an error.
#[derive(Debug)]
pub struct RequestInfo {
    /// The request method, as in `GET`.
    pub method: String,
    /// The protocol version as the server renders it, as in `HTTP/1.1`.
    pub version: String,
    /// The host of the connection, with its port where one was given.
    pub host: String,
    /// The scheme of the connection, as in `https`.
    pub scheme: String,
    /// The host name that the server is configured with.
    pub server_name: String,
    /// The route that matched the request, where one did.
    pub matched_route: Option<String>,
    /// The path of the request with its query, where the URI has them.
    pub target: Option<String>,
    /// The address of the client, a proxy in between accounted for.
    pub client_ip: Option<String>,
    /// The address at the other end of the socket.
    pub peer_addr: Option<String>,
    /// The headers of the request.
    pub headers: RequestHeaderCarrier,
}

/// What a request holds.
pub ghost struct RequestView {
    pub method: Seq<char>,
    pub version: Seq<char>,
    pub host: Seq<char>,
    pub scheme: Seq<char>,
    pub server_name: Seq<char>,
    pub matched_route: Option<Seq<char>>,
    pub target: Option<Seq<char>>,
    pub client_ip: Option<Seq<char>>,
    pub peer_addr: Option<Seq<char>>,
    pub headers: Seq<HeaderFieldView>,
}

/// The text of a string that may be missing.
pub open spec fn opt_text(s: Option<String>) -> Option<Seq<char>> {
    match s {
        Some(t) => Some(t@),
        None => None,
    }
}

impl View for RequestInfo {
    type V = RequestView;

    open spec fn view(&self) -> RequestView {
        RequestView {
            method: self.method@,
            version: self.version@,
            host: self.host@,
            scheme: self.scheme@,
            server_name: self.server_name@,
            matched_route: opt_text(self.matched_route),
            target: opt_text(self.target),
            client_ip: opt_text(self.client_ip),
            peer_addr: opt_text(self.peer_addr),
            headers: self.headers@,
        }
    }
}

} // verus!
