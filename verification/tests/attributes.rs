use actix_web_opentelemetry::{
    collect_attributes, Attribute, AttributeKey, AttributeValue, RequestHeaderCarrier, RequestInfo,
};
use opentelemetry_semantic_conventions::trace as conventions;

fn request() -> RequestInfo {
    RequestInfo {
        method: "GET".to_string(),
        version: "HTTP/1.1".to_string(),
        host: "example.com".to_string(),
        scheme: "https".to_string(),
        server_name: "example.com".to_string(),
        matched_route: Some("/users/{id}".to_string()),
        target: None,
        client_ip: None,
        peer_addr: None,
        headers: RequestHeaderCarrier::new(&Vec::new()),
    }
}

fn text(key: AttributeKey, value: &str) -> Attribute {
    Attribute { key, value: AttributeValue::Text(value.to_string()) }
}

fn value_of(attributes: &[Attribute], key: AttributeKey) -> Option<&AttributeValue> {
    let mut found = attributes.iter().filter(|attribute| attribute.key == key);
    let first = found.next().map(|attribute| &attribute.value);
    assert!(found.next().is_none(), "{:?} stands twice", key);
    first
}

#[test]
fn the_keys_are_those_of_the_semantic_conventions() {
    assert_eq!(AttributeKey::HttpMethod.as_str(), conventions::HTTP_METHOD.as_str());
    assert_eq!(AttributeKey::HttpFlavor.as_str(), conventions::HTTP_FLAVOR.as_str());
    assert_eq!(AttributeKey::HttpHost.as_str(), conventions::HTTP_HOST.as_str());
    assert_eq!(AttributeKey::HttpRoute.as_str(), conventions::HTTP_ROUTE.as_str());
    assert_eq!(AttributeKey::HttpScheme.as_str(), conventions::HTTP_SCHEME.as_str());
    assert_eq!(AttributeKey::HttpServerName.as_str(), conventions::HTTP_SERVER_NAME.as_str());
    assert_eq!(AttributeKey::NetHostPort.as_str(), conventions::NET_HOST_PORT.as_str());
    assert_eq!(AttributeKey::HttpTarget.as_str(), conventions::HTTP_TARGET.as_str());
    assert_eq!(AttributeKey::HttpUserAgent.as_str(), conventions::HTTP_USER_AGENT.as_str());
    assert_eq!(AttributeKey::HttpClientIp.as_str(), conventions::HTTP_CLIENT_IP.as_str());
    assert_eq!(AttributeKey::NetPeerIp.as_str(), conventions::NET_PEER_IP.as_str());
    assert_eq!(AttributeKey::HttpStatusCode.as_str(), conventions::HTTP_STATUS_CODE.as_str());
}

#[test]
fn the_names_of_the_keys() {
    assert_eq!(AttributeKey::HttpMethod.as_str(), "http.method");
    assert_eq!(AttributeKey::HttpFlavor.as_str(), "http.flavor");
    assert_eq!(AttributeKey::HttpHost.as_str(), "http.host");
    assert_eq!(AttributeKey::HttpRoute.as_str(), "http.route");
    assert_eq!(AttributeKey::HttpScheme.as_str(), "http.scheme");
    assert_eq!(AttributeKey::HttpServerName.as_str(), "http.server_name");
    assert_eq!(AttributeKey::NetHostPort.as_str(), "net.host.port");
    assert_eq!(AttributeKey::HttpTarget.as_str(), "http.target");
    assert_eq!(AttributeKey::HttpUserAgent.as_str(), "http.user_agent");
    assert_eq!(AttributeKey::HttpClientIp.as_str(), "http.client_ip");
    assert_eq!(AttributeKey::NetPeerIp.as_str(), "net.peer.ip");
    assert_eq!(AttributeKey::HttpStatusCode.as_str(), "http.status_code");
}

#[test]
fn a_bare_request_has_the_five_fixed_attributes() {
    let attributes = collect_attributes(&request(), "/users/{id}");
    assert_eq!(
        attributes,
        vec![
            text(AttributeKey::HttpMethod, "GET"),
            text(AttributeKey::HttpFlavor, "1.1"),
            text(AttributeKey::HttpHost, "example.com"),
            text(AttributeKey::HttpRoute, "/users/{id}"),
            text(AttributeKey::HttpScheme, "https"),
        ]
    );
}

#[test]
fn a_full_request_has_every_attribute_in_order() {
    let mut info = request();
    info.method = "POST".to_string();
    info.version = "HTTP/2.0".to_string();
    info.host = "example.com:8443".to_string();
    info.server_name = "backend-7".to_string();
    info.target = Some("/users/42?full=1".to_string());
    info.client_ip = Some("203.0.113.9".to_string());
    info.peer_addr = Some("10.0.0.1:51234".to_string());
    info.headers = RequestHeaderCarrier::new(&vec![
        ("accept".to_string(), b"*/*".to_vec()),
        ("user-agent".to_string(), b"curl/7.64.1".to_vec()),
    ]);
    let attributes = collect_attributes(&info, "/users/:id");
    assert_eq!(
        attributes,
        vec![
            text(AttributeKey::HttpMethod, "POST"),
            text(AttributeKey::HttpFlavor, "2.0"),
            text(AttributeKey::HttpHost, "example.com:8443"),
            text(AttributeKey::HttpRoute, "/users/:id"),
            text(AttributeKey::HttpScheme, "https"),
            text(AttributeKey::HttpServerName, "backend-7"),
            Attribute { key: AttributeKey::NetHostPort, value: AttributeValue::Unsigned(8443) },
            text(AttributeKey::HttpTarget, "/users/42?full=1"),
            text(AttributeKey::HttpUserAgent, "curl/7.64.1"),
            text(AttributeKey::HttpClientIp, "203.0.113.9"),
            text(AttributeKey::NetPeerIp, "10.0.0.1:51234"),
        ]
    );
}

#[test]
fn the_server_name_is_reported_only_where_it_is_not_the_host() {
    let mut info = request();
    let same = collect_attributes(&info, "/");
    assert_eq!(value_of(&same, AttributeKey::HttpServerName), None);
    info.server_name = "Example.com".to_string();
    let other = collect_attributes(&info, "/");
    assert_eq!(
        value_of(&other, AttributeKey::HttpServerName),
        Some(&AttributeValue::Text("Example.com".to_string()))
    );
    info.host = "example.com:80".to_string();
    info.server_name = "example.com".to_string();
    let with_port = collect_attributes(&info, "/");
    assert_eq!(
        value_of(&with_port, AttributeKey::HttpServerName),
        Some(&AttributeValue::Text("example.com".to_string()))
    );
}

#[test]
fn the_peer_is_reported_only_where_it_is_not_the_client() {
    let mut info = request();
    info.client_ip = Some("10.0.0.1:5000".to_string());
    info.peer_addr = Some("10.0.0.1:5000".to_string());
    let direct = collect_attributes(&info, "/");
    assert_eq!(value_of(&direct, AttributeKey::NetPeerIp), None);
    assert_eq!(
        value_of(&direct, AttributeKey::HttpClientIp),
        Some(&AttributeValue::Text("10.0.0.1:5000".to_string()))
    );

    info.client_ip = Some("203.0.113.9".to_string());
    let proxied = collect_attributes(&info, "/");
    assert_eq!(
        value_of(&proxied, AttributeKey::NetPeerIp),
        Some(&AttributeValue::Text("10.0.0.1:5000".to_string()))
    );

    info.client_ip = None;
    let unresolved = collect_attributes(&info, "/");
    assert_eq!(value_of(&unresolved, AttributeKey::HttpClientIp), None);
    assert_eq!(
        value_of(&unresolved, AttributeKey::NetPeerIp),
        Some(&AttributeValue::Text("10.0.0.1:5000".to_string()))
    );

    info.client_ip = Some("203.0.113.9".to_string());
    info.peer_addr = None;
    let no_peer = collect_attributes(&info, "/");
    assert_eq!(value_of(&no_peer, AttributeKey::NetPeerIp), None);
}

#[test]
fn the_port_is_reported_only_where_the_host_names_a_number() {
    let mut info = request();
    info.host = "example.com:8080".to_string();
    let numeric = collect_attributes(&info, "/");
    assert_eq!(value_of(&numeric, AttributeKey::NetHostPort), Some(&AttributeValue::Unsigned(8080)));
    info.host = "example.com:http".to_string();
    let named = collect_attributes(&info, "/");
    assert_eq!(value_of(&named, AttributeKey::NetHostPort), None);
    info.host = "example.com".to_string();
    let bare = collect_attributes(&info, "/");
    assert_eq!(value_of(&bare, AttributeKey::NetHostPort), None);
}

#[test]
fn the_user_agent_is_reported_only_where_the_header_is_text() {
    let mut info = request();
    info.headers = RequestHeaderCarrier::new(&vec![(
        "User-Agent".to_string(),
        b"Mozilla/5.0 (X11)".to_vec(),
    )]);
    let present = collect_attributes(&info, "/");
    assert_eq!(
        value_of(&present, AttributeKey::HttpUserAgent),
        Some(&AttributeValue::Text("Mozilla/5.0 (X11)".to_string()))
    );
    info.headers =
        RequestHeaderCarrier::new(&vec![("user-agent".to_string(), b"caf\xc3\xa9".to_vec())]);
    let binary = collect_attributes(&info, "/");
    assert_eq!(value_of(&binary, AttributeKey::HttpUserAgent), None);
    info.headers = RequestHeaderCarrier::new(&vec![("accept".to_string(), b"*/*".to_vec())]);
    let missing = collect_attributes(&info, "/");
    assert_eq!(value_of(&missing, AttributeKey::HttpUserAgent), None);
}

#[test]
fn the_target_is_the_path_with_its_query() {
    let mut info = request();
    info.target = Some("/users/42?verbose=true".to_string());
    let attributes = collect_attributes(&info, "/users/{id}");
    assert_eq!(
        value_of(&attributes, AttributeKey::HttpTarget),
        Some(&AttributeValue::Text("/users/42?verbose=true".to_string()))
    );
    assert_eq!(
        value_of(&attributes, AttributeKey::HttpRoute),
        Some(&AttributeValue::Text("/users/{id}".to_string()))
    );
}

#[test]
fn the_status_code_is_no_attribute_of_the_request() {
    let attributes = collect_attributes(&request(), "/");
    assert_eq!(value_of(&attributes, AttributeKey::HttpStatusCode), None);
}
