//! The attributes of a server span.
//!
//! The keys are those of the semantic conventions for HTTP. Five attributes
//! are on every span. The others are there only where the request gives them.

use vstd::prelude::*;
use crate::carrier::found_text;
use crate::flavor::{protocol_flavor, without_family};
use crate::port::{host_port, host_port_of};
use crate::request::{RequestInfo, RequestView};

verus! {

/// The key of an attribute.
#[derive(Clone, Copy, Debug, PartialEq, Eq, Structural)]
pub enum AttributeKey {
    /// `http.method`
    HttpMethod,
    /// `http.flavor`
    HttpFlavor,
    /// `http.host`
    HttpHost,
    /// `http.route`
    HttpRoute,
    /// `http.scheme`
    HttpScheme,
    /// `http.server_name`
    HttpServerName,
    /// `net.host.port`
    NetHostPort,
    /// `http.target`
    HttpTarget,
    /// `http.user_agent`
    HttpUserAgent,
    /// `http.client_ip`
    HttpClientIp,
    /// `net.peer.ip`
    NetPeerIp,
    /// `http.status_code`
    HttpStatusCode,
}

/// The name of a key.
pub open spec fn key_name(key: AttributeKey) -> Seq<char> {
    match key {
        AttributeKey::HttpMethod => "http.method"@,
        AttributeKey::HttpFlavor => "http.flavor"@,
        AttributeKey::HttpHost => "http.host"@,
        AttributeKey::HttpRoute => "http.route"@,
        AttributeKey::HttpScheme => "http.scheme"@,
        AttributeKey::HttpServerName => "http.server_name"@,
        AttributeKey::NetHostPort => "net.host.port"@,
        AttributeKey::HttpTarget => "http.target"@,
        AttributeKey::HttpUserAgent => "http.user_agent"@,
        AttributeKey::HttpClientIp => "http.client_ip"@,
        AttributeKey::NetPeerIp => "net.peer.ip"@,
        AttributeKey::HttpStatusCode => "http.status_code"@,
    }
}

impl AttributeKey {
    /// The name of the key, as the semantic conventions write it.
    pub fn as_str(&self) -> (name: &'static str)
        ensures
            name@ == key_name(*self),
    {
        match self {
            AttributeKey::HttpMethod => "http.method",
            AttributeKey::HttpFlavor => "http.flavor",
            AttributeKey::HttpHost => "http.host",
            AttributeKey::HttpRoute => "http.route",
            AttributeKey::HttpScheme => "http.scheme",
            AttributeKey::HttpServerName => "http.server_name",
            AttributeKey::NetHostPort => "net.host.port",
            AttributeKey::HttpTarget => "http.target",
            AttributeKey::HttpUserAgent => "http.user_agent",
            AttributeKey::HttpClientIp => "http.client_ip",
            AttributeKey::NetPeerIp => "net.peer.ip",
            AttributeKey::HttpStatusCode => "http.status_code",
        }
    }
}

/// The value of an attribute.
#[derive(Debug, PartialEq, Eq)]
pub enum AttributeValue {
    Text(String),
    Unsigned(u64),
}

/// What an attribute value holds.
pub ghost enum ValueView {
    Text(Seq<char>),
    Unsigned(u64),
}

impl View for AttributeValue {
    type V = ValueView;

    open spec fn view(&self) -> ValueView {
        match self {
            AttributeValue::Text(t) => ValueView::Text(t@),
            AttributeValue::Unsigned(n) => ValueView::Unsigned(*n),
        }
    }
}

/// A key and its value.
#[derive(Debug, PartialEq, Eq)]
pub struct Attribute {
    pub key: AttributeKey,
    pub value: AttributeValue,
}

/// What an attribute holds.
pub ghost struct AttributeView {
    pub key: AttributeKey,
    pub value: ValueView,
}

impl View for Attribute {
    type V = AttributeView;

    open spec fn view(&self) -> AttributeView {
        AttributeView { key: self.key, value: self.value@ }
    }
}

/// What a list of attributes holds.
pub open spec fn views(attributes: Seq<Attribute>) -> Seq<AttributeView> {
    Seq::new(attributes.len(), |i: int| attributes[i]@)
}

/// An attribute with a text for its value.
pub open spec fn text_attribute(key: AttributeKey, text: Seq<char>) -> AttributeView {
    AttributeView { key, value: ValueView::Text(text) }
}

/// The list of one text attribute, or of none where the text is missing.
pub open spec fn optional_text(key: AttributeKey, text: Option<Seq<char>>) -> Seq<AttributeView> {
    match text {
        Some(t) => seq![text_attribute(key, t)],
        None => Seq::empty(),
    }
}

/// The name of the header that holds the user agent.
pub open spec fn user_agent_header() -> Seq<char> {
    "user-agent"@
}

/// The attributes that every span has: method, flavor, host, route and
/// scheme, in this order.
pub open spec fn fixed_attributes(request: RequestView, route: Seq<char>) -> Seq<AttributeView> {
    seq![
        text_attribute(AttributeKey::HttpMethod, request.method),
        text_attribute(AttributeKey::HttpFlavor, without_family(request.version)),
        text_attribute(AttributeKey::HttpHost, request.host),
        text_attribute(AttributeKey::HttpRoute, route),
        text_attribute(AttributeKey::HttpScheme, request.scheme),
    ]
}

/// The server's name, where it differs from the host of the connection.
pub open spec fn server_name_attribute(request: RequestView) -> Seq<AttributeView> {
    if request.server_name != request.host {
        seq![text_attribute(AttributeKey::HttpServerName, request.server_name)]
    } else {
        Seq::empty()
    }
}

/// The port of the host, where the host names one.
pub open spec fn port_attribute(request: RequestView) -> Seq<AttributeView> {
    match host_port_of(request.host) {
        Some(port) => seq![
            AttributeView { key: AttributeKey::NetHostPort, value: ValueView::Unsigned(port) },
        ],
        None => Seq::empty(),
    }
}

/// The address of the peer, where there is one and it is not the client's:
/// the request came through a proxy.
pub open spec fn peer_attribute(request: RequestView) -> Seq<AttributeView> {
    match request.peer_addr {
        Some(peer) => if request.client_ip != Some(peer) {
            seq![text_attribute(AttributeKey::NetPeerIp, peer)]
        } else {
            Seq::empty()
        },
        None => Seq::empty(),
    }
}

/// The attributes that depend on the request: the server's name, the port,
/// the target, the user agent, the client's address and the peer's, in this
/// order, each only where it applies.
pub open spec fn optional_attributes(request: RequestView) -> Seq<AttributeView> {
    server_name_attribute(request) + port_attribute(request) + optional_text(
        AttributeKey::HttpTarget,
        request.target,
    ) + optional_text(
        AttributeKey::HttpUserAgent,
        found_text(request.headers, user_agent_header()),
    ) + optional_text(AttributeKey::HttpClientIp, request.client_ip) + peer_attribute(request)
}

/// The attributes of the span for `request`, reported under `route`.
pub open spec fn request_attributes(request: RequestView, route: Seq<char>) -> Seq<AttributeView> {
    fixed_attributes(request, route) + optional_attributes(request)
}

/// Whether one of `attributes` has the key `key`.
pub open spec fn has_key(attributes: Seq<AttributeView>, key: AttributeKey) -> bool {
    exists|i: int| 0 <= i < attributes.len() && (#[trigger] attributes[i]).key == key
}

/// A key is in a joined list where it is in one of the two parts.
proof fn lemma_has_key_joined(a: Seq<AttributeView>, b: Seq<AttributeView>, key: AttributeKey)
    ensures
        has_key(a + b, key) <==> has_key(a, key) || has_key(b, key),
{
    let joined = a + b;
    if has_key(a, key) {
        let i = choose|i: int| 0 <= i < a.len() && (#[trigger] a[i]).key == key;
        assert(joined[i].key == key);
    }
    if has_key(b, key) {
        let i = choose|i: int| 0 <= i < b.len() && (#[trigger] b[i]).key == key;
        assert(joined[a.len() + i].key == key);
    }
}

/// A list of at most one attribute with the key `own` has a key exactly where
/// it is `own` and the list is not empty.
proof fn lemma_has_key_single(part: Seq<AttributeView>, own: AttributeKey, key: AttributeKey)
    requires
        part.len() <= 1,
        part.len() == 1 ==> part[0].key == own,
    ensures
        has_key(part, key) <==> part.len() == 1 && key == own,
{
}

/// Which of the keys that depend on the request a span has.
proof fn lemma_optional_keys(request: RequestView, key: AttributeKey)
    ensures
        has_key(optional_attributes(request), key) <==> match key {
            AttributeKey::HttpServerName => request.server_name != request.host,
            AttributeKey::NetHostPort => host_port_of(request.host) is Some,
            AttributeKey::HttpTarget => request.target is Some,
            AttributeKey::HttpUserAgent => found_text(request.headers, user_agent_header())
                is Some,
            AttributeKey::HttpClientIp => request.client_ip is Some,
            AttributeKey::NetPeerIp => request.peer_addr is Some && request.peer_addr
                != request.client_ip,
            _ => false,
        },
{
    let name = server_name_attribute(request);
    let port = port_attribute(request);
    let target = optional_text(AttributeKey::HttpTarget, request.target);
    let agent = optional_text(
        AttributeKey::HttpUserAgent,
        found_text(request.headers, user_agent_header()),
    );
    let client = optional_text(AttributeKey::HttpClientIp, request.client_ip);
    let peer = peer_attribute(request);
    lemma_has_key_joined(name, port, key);
    lemma_has_key_joined(name + port, target, key);
    lemma_has_key_joined(name + port + target, agent, key);
    lemma_has_key_joined(name + port + target + agent, client, key);
    lemma_has_key_joined(name + port + target + agent + client, peer, key);
    lemma_has_key_single(name, AttributeKey::HttpServerName, key);
    lemma_has_key_single(port, AttributeKey::NetHostPort, key);
    lemma_has_key_single(target, AttributeKey::HttpTarget, key);
    lemma_has_key_single(agent, AttributeKey::HttpUserAgent, key);
    lemma_has_key_single(client, AttributeKey::HttpClientIp, key);
    lemma_has_key_single(peer, AttributeKey::NetPeerIp, key);
}

/// Which keys a span has, whatever the request.
///
/// The five fixed keys are always there and the status code never is. Each
/// of the other keys is there exactly where the request gives its value.
pub proof fn lemma_keys_present(request: RequestView, route: Seq<char>, key: AttributeKey)
    ensures
        has_key(request_attributes(request, route), key) <==> match key {
            AttributeKey::HttpMethod => true,
            AttributeKey::HttpFlavor => true,
            AttributeKey::HttpHost => true,
            AttributeKey::HttpRoute => true,
            AttributeKey::HttpScheme => true,
            AttributeKey::HttpServerName => request.server_name != request.host,
            AttributeKey::NetHostPort => host_port_of(request.host) is Some,
            AttributeKey::HttpTarget => request.target is Some,
            AttributeKey::HttpUserAgent => found_text(request.headers, user_agent_header())
                is Some,
            AttributeKey::HttpClientIp => request.client_ip is Some,
            AttributeKey::NetPeerIp => request.peer_addr is Some && request.peer_addr
                != request.client_ip,
            AttributeKey::HttpStatusCode => false,
        },
{
    let fixed = fixed_attributes(request, route);
    lemma_has_key_joined(fixed, optional_attributes(request), key);
    lemma_optional_keys(request, key);
}

/// Whether no key stands twice in `attributes`.
pub open spec fn keys_once(attributes: Seq<AttributeView>) -> bool {
    forall|i: int, j: int|
        0 <= i < j < attributes.len() ==> (#[trigger] attributes[i]).key != (
        #[trigger] attributes[j]).key
}

/// No key stands twice in a joined list where none does in either part and
/// the parts share no key.
proof fn lemma_keys_once_joined(a: Seq<AttributeView>, b: Seq<AttributeView>)
    requires
        keys_once(a),
        keys_once(b),
        forall|key: AttributeKey| !(has_key(a, key) && has_key(b, key)),
    ensures
        keys_once(a + b),
{
    let joined = a + b;
    assert forall|i: int, j: int| 0 <= i < j < joined.len() implies (#[trigger] joined[i]).key
        != (#[trigger] joined[j]).key by {
        if j < a.len() {
            assert(joined[i] == a[i] && joined[j] == a[j]);
        } else if i >= a.len() {
            assert(joined[i] == b[i - a.len()] && joined[j] == b[j - a.len()]);
        } else {
            assert(joined[i] == a[i] && joined[j] == b[j - a.len()]);
            assert(has_key(a, a[i].key));
            assert(has_key(b, b[j - a.len()].key));
        }
    }
}

/// No key stands twice among the attributes of a span, so that they can be
/// held as a mapping from keys to values.
pub proof fn lemma_keys_once(request: RequestView, route: Seq<char>)
    ensures
        keys_once(request_attributes(request, route)),
{
    let name = server_name_attribute(request);
    let port = port_attribute(request);
    let target = optional_text(AttributeKey::HttpTarget, request.target);
    let agent = optional_text(
        AttributeKey::HttpUserAgent,
        found_text(request.headers, user_agent_header()),
    );
    let client = optional_text(AttributeKey::HttpClientIp, request.client_ip);
    let peer = peer_attribute(request);
    assert forall|key: AttributeKey| !(has_key(name, key) && has_key(port, key)) by {
        lemma_has_key_single(name, AttributeKey::HttpServerName, key);
        lemma_has_key_single(port, AttributeKey::NetHostPort, key);
    }
    lemma_keys_once_joined(name, port);
    assert forall|key: AttributeKey| !(has_key(name + port, key) && has_key(target, key)) by {
        lemma_has_key_joined(name, port, key);
        lemma_has_key_single(name, AttributeKey::HttpServerName, key);
        lemma_has_key_single(port, AttributeKey::NetHostPort, key);
        lemma_has_key_single(target, AttributeKey::HttpTarget, key);
    }
    lemma_keys_once_joined(name + port, target);
    assert forall|key: AttributeKey|
        !(has_key(name + port + target, key) && has_key(agent, key)) by {
        lemma_has_key_joined(name, port, key);
        lemma_has_key_joined(name + port, target, key);
        lemma_has_key_single(name, AttributeKey::HttpServerName, key);
        lemma_has_key_single(port, AttributeKey::NetHostPort, key);
        lemma_has_key_single(target, AttributeKey::HttpTarget, key);
        lemma_has_key_single(agent, AttributeKey::HttpUserAgent, key);
    }
    lemma_keys_once_joined(name + port + target, agent);
    assert forall|key: AttributeKey|
        !(has_key(name + port + target + agent, key) && has_key(client, key)) by {
        lemma_has_key_joined(name, port, key);
        lemma_has_key_joined(name + port, target, key);
        lemma_has_key_joined(name + port + target, agent, key);
        lemma_has_key_single(name, AttributeKey::HttpServerName, key);
        lemma_has_key_single(port, AttributeKey::NetHostPort, key);
        lemma_has_key_single(target, AttributeKey::HttpTarget, key);
        lemma_has_key_single(agent, AttributeKey::HttpUserAgent, key);
        lemma_has_key_single(client, AttributeKey::HttpClientIp, key);
    }
    lemma_keys_once_joined(name + port + target + agent, client);
    assert forall|key: AttributeKey|
        !(has_key(name + port + target + agent + client, key) && has_key(peer, key)) by {
        lemma_has_key_joined(name, port, key);
        lemma_has_key_joined(name + port, target, key);
        lemma_has_key_joined(name + port + target, agent, key);
        lemma_has_key_joined(name + port + target + agent, client, key);
        lemma_has_key_single(name, AttributeKey::HttpServerName, key);
        lemma_has_key_single(port, AttributeKey::NetHostPort, key);
        lemma_has_key_single(target, AttributeKey::HttpTarget, key);
        lemma_has_key_single(agent, AttributeKey::HttpUserAgent, key);
        lemma_has_key_single(client, AttributeKey::HttpClientIp, key);
        lemma_has_key_single(peer, AttributeKey::NetPeerIp, key);
    }
    lemma_keys_once_joined(name + port + target + agent + client, peer);
    let fixed = fixed_attributes(request, route);
    assert forall|key: AttributeKey|
        !(has_key(fixed, key) && has_key(optional_attributes(request), key)) by {
        lemma_optional_keys(request, key);
    }
    lemma_keys_once_joined(fixed, optional_attributes(request));
}

/// The server's name is reported exactly where it differs from the host of
/// the connection, and the peer's address exactly where there is a peer and
/// its address differs from the client's.
pub proof fn lemma_optional_attributes(request: RequestView, route: Seq<char>)
    ensures
        has_key(request_attributes(request, route), AttributeKey::HttpServerName)
            <==> request.server_name != request.host,
        has_key(request_attributes(request, route), AttributeKey::NetPeerIp) <==> (
        request.peer_addr is Some && request.peer_addr != request.client_ip),
{
    lemma_keys_present(request, route, AttributeKey::HttpServerName);
    lemma_keys_present(request, route, AttributeKey::NetPeerIp);
}

/// The route attribute of a span is the route it is reported under, no other
/// attribute has that key, and the method attribute is the request's method.
pub proof fn lemma_route_attribute(request: RequestView, route: Seq<char>)
    ensures
        request_attributes(request, route).len() >= 5,
        request_attributes(request, route)[0] == text_attribute(
            AttributeKey::HttpMethod,
            request.method,
        ),
        request_attributes(request, route)[3] == text_attribute(AttributeKey::HttpRoute, route),
        forall|i: int|
            0 <= i < request_attributes(request, route).len() && (#[trigger] request_attributes(
                request,
                route,
            )[i]).key == AttributeKey::HttpRoute ==> i == 3,
{
    lemma_optional_keys(request, AttributeKey::HttpRoute);
}

fn text(key: AttributeKey, value: &str) -> (attribute: Attribute)
    ensures
        attribute@ == text_attribute(key, value@),
{
    Attribute { key, value: AttributeValue::Text(value.to_owned()) }
}

fn attach(attributes: &mut Vec<Attribute>, attribute: Attribute)
    ensures
        views(final(attributes)@) == views(old(attributes)@) + seq![attribute@],
{
    attributes.push(attribute);
    assert(views(attributes@) =~= views(old(attributes)@) + seq![attribute@]);
}

/// Collects the attributes of the span for `request`, reported under `route`.
///
/// Method, flavor, host, route and scheme come first and always. After them,
/// each only where it applies: the server's name where it is not the host;
/// the port where the host names one; the target; the user agent where the
/// header is there and is text; the client's address; and the peer's address
/// where it is not the client's.
pub fn collect_attributes(request: &RequestInfo, route: &str) -> (attributes: Vec<Attribute>)
    ensures
        views(attributes@) == request_attributes(request@, route@),
{
    let mut attributes: Vec<Attribute> = Vec::new();
    assert(views(attributes@) =~= Seq::empty());
    attach(&mut attributes, text(AttributeKey::HttpMethod, request.method.as_str()));
    let flavor = protocol_flavor(request.version.as_str());
    attach(&mut attributes, text(AttributeKey::HttpFlavor, flavor.as_str()));
    attach(&mut attributes, text(AttributeKey::HttpHost, request.host.as_str()));
    attach(&mut attributes, text(AttributeKey::HttpRoute, route));
    attach(&mut attributes, text(AttributeKey::HttpScheme, request.scheme.as_str()));
    assert(views(attributes@) =~= fixed_attributes(request@, route@));
    if !(request.server_name == request.host) {
        attach(&mut attributes, text(AttributeKey::HttpServerName, request.server_name.as_str()));
    }
    let ghost fixed = fixed_attributes(request@, route@);
    let ghost upto_name = server_name_attribute(request@);
    assert(views(attributes@) =~= fixed + upto_name);
    match host_port(request.host.as_str()) {
        Some(port) => {
            attach(
                &mut attributes,
                Attribute { key: AttributeKey::NetHostPort, value: AttributeValue::Unsigned(port) },
            );
        },
        None => {},
    }
    let ghost upto_port = upto_name + port_attribute(request@);
    assert(views(attributes@) =~= fixed + upto_port);
    match &request.target {
        Some(target) => {
            attach(&mut attributes, text(AttributeKey::HttpTarget, target.as_str()));
        },
        None => {},
    }
    let ghost upto_target = upto_port + optional_text(AttributeKey::HttpTarget, request@.target);
    assert(views(attributes@) =~= fixed + upto_target);
    match request.headers.get("user-agent") {
        Some(agent) => {
            attach(&mut attributes, text(AttributeKey::HttpUserAgent, agent));
        },
        None => {},
    }
    let ghost upto_agent = upto_target + optional_text(
        AttributeKey::HttpUserAgent,
        found_text(request@.headers, user_agent_header()),
    );
    assert(views(attributes@) =~= fixed + upto_agent);
    match &request.client_ip {
        Some(client) => {
            attach(&mut attributes, text(AttributeKey::HttpClientIp, client.as_str()));
        },
        None => {},
    }
    let ghost upto_client = upto_agent + optional_text(
        AttributeKey::HttpClientIp,
        request@.client_ip,
    );
    assert(views(attributes@) =~= fixed + upto_client);
    match &request.peer_addr {
        Some(peer) => {
            let direct: bool = match &request.client_ip {
                Some(client) => *client == *peer,
                None => false,
            };
            if !direct {
                attach(&mut attributes, text(AttributeKey::NetPeerIp, peer.as_str()));
            }
        },
        None => {},
    }
    assert(views(attributes@) =~= fixed + (upto_client + peer_attribute(request@)));
    attributes
}

} // verus!
