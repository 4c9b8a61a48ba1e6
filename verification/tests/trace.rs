use actix_web_opentelemetry::route_formatter::matched_or_default;
use actix_web_opentelemetry::{
    AsMatched, Attribute, AttributeKey, AttributeValue, Outcome, RequestHeaderCarrier, RequestInfo,
    RequestTrace, RequestTracing, RequestTracingMiddleware, RouteFormatter, SpanKind, SpanStatus,
    TraceState,
};
use std::rc::Rc;

#[derive(Debug)]
struct Lowercase;

impl RouteFormatter for Lowercase {
    fn format(&self, path: &str) -> String {
        path.to_lowercase()
    }
}

#[derive(Debug)]
struct Colons;

impl RouteFormatter for Colons {
    fn format(&self, path: &str) -> String {
        path.replace('{', ":").replace('}', "")
    }
}

fn request(matched: Option<&str>) -> RequestInfo {
    RequestInfo {
        method: "GET".to_string(),
        version: "HTTP/1.1".to_string(),
        host: "localhost:8080".to_string(),
        scheme: "http".to_string(),
        server_name: "localhost:8080".to_string(),
        matched_route: matched.map(|route| route.to_string()),
        target: Some("/users/42".to_string()),
        client_ip: Some("127.0.0.1:40000".to_string()),
        peer_addr: Some("127.0.0.1:40000".to_string()),
        headers: RequestHeaderCarrier::new(&Vec::new()),
    }
}

fn text(key: AttributeKey, value: &str) -> Attribute {
    Attribute { key, value: AttributeValue::Text(value.to_string()) }
}

#[test]
fn a_request_is_reported_under_its_matched_route() {
    let middleware = RequestTracing::new().new_transform(());
    let mut trace = RequestTrace::new();
    let start = middleware.open_span(&mut trace, &request(Some("/users/{id}"))).expect("a span");
    assert_eq!(start.name, "/users/{id}");
    assert_eq!(start.kind, SpanKind::Server);
    assert!(start.attributes.contains(&text(AttributeKey::HttpMethod, "GET")));
    assert!(start.attributes.contains(&text(AttributeKey::HttpRoute, "/users/{id}")));
    assert_eq!(
        start.attributes,
        vec![
            text(AttributeKey::HttpMethod, "GET"),
            text(AttributeKey::HttpFlavor, "1.1"),
            text(AttributeKey::HttpHost, "localhost:8080"),
            text(AttributeKey::HttpRoute, "/users/{id}"),
            text(AttributeKey::HttpScheme, "http"),
            Attribute { key: AttributeKey::NetHostPort, value: AttributeValue::Unsigned(8080) },
            text(AttributeKey::HttpTarget, "/users/42"),
            text(AttributeKey::HttpClientIp, "127.0.0.1:40000"),
        ]
    );
}

#[test]
fn a_request_that_matched_no_route_is_reported_under_default() {
    let middleware = RequestTracing::new().new_transform(());
    let mut trace = RequestTrace::new();
    let start = middleware.open_span(&mut trace, &request(None)).expect("a span");
    assert_eq!(start.name, "default");
    assert!(start.attributes.contains(&text(AttributeKey::HttpRoute, "default")));
    assert_eq!(matched_or_default(None), "default");
    assert_eq!(matched_or_default(Some("/users/{id}")), "/users/{id}");
    assert_eq!(matched_or_default(Some("")), "");
}

#[test]
fn a_lowercasing_formatter_leaves_a_lowercase_route_as_it_is() {
    let middleware = RequestTracing::with_formatter(Lowercase).new_transform(());
    let mut trace = RequestTrace::new();
    let start = middleware.open_span(&mut trace, &request(Some("/users/{id}"))).expect("a span");
    assert_eq!(start.name, "/users/{id}");
    assert!(start.attributes.contains(&text(AttributeKey::HttpRoute, "/users/{id}")));
}

#[test]
fn a_lowercasing_formatter_lowers_a_mixed_case_route() {
    let middleware = RequestTracing::with_formatter(Lowercase).new_transform(());
    let mut trace = RequestTrace::new();
    let start = middleware.open_span(&mut trace, &request(Some("/Users/{id}"))).expect("a span");
    assert_eq!(start.name, "/users/{id}");
    assert!(start.attributes.contains(&text(AttributeKey::HttpRoute, "/users/{id}")));
    assert!(!start.attributes.contains(&text(AttributeKey::HttpRoute, "/Users/{id}")));
}

#[test]
fn a_formatter_is_given_the_default_route_where_none_matched() {
    let middleware = RequestTracing::with_formatter(Colons).new_transform(());
    assert_eq!(middleware.route_name(None), "default");
    assert_eq!(middleware.route_name(Some("/users/{id}/posts/{post}")), "/users/:id/posts/:post");
    let upper = RequestTracingMiddleware::new((), Some(Rc::new(Lowercase)));
    assert_eq!(upper.route_name(Some("/A/{B}")), "/a/{b}");
}

#[test]
fn the_route_name_is_what_the_formatter_gives() {
    let routes = [Some("/users/{id}"), Some("/Users/{ID}"), Some(""), None];
    for matched in routes.iter() {
        let route = matched.unwrap_or("default");
        let lowered = RequestTracing::with_formatter(Lowercase).new_transform(());
        assert_eq!(lowered.route_name(*matched), Lowercase.format(route));
        let colons = RequestTracing::with_formatter(Colons).new_transform(());
        assert_eq!(colons.route_name(*matched), Colons.format(route));
        let as_matched = RequestTracing::with_formatter(AsMatched).new_transform(());
        assert_eq!(as_matched.route_name(*matched), route);
        let plain = RequestTracing::new().new_transform(());
        assert_eq!(plain.route_name(*matched), route);
        let default = RequestTracing::default().new_transform(());
        assert_eq!(default.route_name(*matched), route);
    }
}

#[test]
fn one_span_is_opened_and_one_is_closed() {
    let middleware = RequestTracing::new().new_transform(());
    let mut trace = RequestTrace::new();
    assert_eq!(trace.state(), TraceState::Idle);
    let info = request(Some("/users/{id}"));
    assert!(middleware.open_span(&mut trace, &info).is_some());
    assert_eq!(trace.state(), TraceState::SpanOpen);
    assert!(middleware.open_span(&mut trace, &info).is_none());
    assert_eq!(trace.state(), TraceState::SpanOpen);
    let outcome = Outcome::Response { status: 200 };
    assert!(trace.settle(&outcome).is_some());
    assert_eq!(trace.state(), TraceState::Completed);
    assert!(trace.settle(&outcome).is_none());
    assert!(middleware.open_span(&mut trace, &info).is_none());
    assert_eq!(trace.state(), TraceState::Completed);
}

#[test]
fn nothing_is_closed_before_a_span_is_open() {
    let mut trace = RequestTrace::new();
    assert!(trace.settle(&Outcome::Response { status: 200 }).is_none());
    assert!(trace.settle(&Outcome::Failure { description: "early".to_string() }).is_none());
    assert_eq!(trace.state(), TraceState::Idle);
    let middleware = RequestTracing::new().new_transform(());
    assert!(middleware.open_span(&mut trace, &request(None)).is_some());
    assert!(trace.settle(&Outcome::Response { status: 200 }).is_some());
}

#[test]
fn a_response_of_404_closes_the_span_as_not_found() {
    let middleware = RequestTracing::new().new_transform(());
    let mut trace = RequestTrace::new();
    middleware.open_span(&mut trace, &request(Some("/users/{id}"))).expect("a span");
    let end = trace.settle(&Outcome::Response { status: 404 }).expect("an end");
    assert_eq!(end.status, SpanStatus::NotFound);
    assert_eq!(end.message, "");
    assert_eq!(
        end.attributes,
        vec![Attribute { key: AttributeKey::HttpStatusCode, value: AttributeValue::Unsigned(404) }]
    );
    assert_eq!(end.attributes[0].key.as_str(), "http.status_code");
}

#[test]
fn a_failure_closes_the_span_as_internal_and_stays_as_it_was() {
    let middleware = RequestTracing::new().new_transform(());
    let mut trace = RequestTrace::new();
    middleware.open_span(&mut trace, &request(Some("/users/{id}"))).expect("a span");
    let outcome = Outcome::Failure { description: "db timeout".to_string() };
    let end = trace.settle(&outcome).expect("an end");
    assert_eq!(end.status, SpanStatus::Internal);
    assert_eq!(end.message, "db timeout");
    assert!(end.attributes.is_empty());
    assert!(matches!(outcome, Outcome::Failure { ref description } if description == "db timeout"));
    assert_eq!(trace.state(), TraceState::Completed);
}

#[test]
fn the_middleware_hands_out_its_service() {
    let mut middleware = RequestTracing::new().new_transform(vec![1u8, 2]);
    assert_eq!(middleware.service(), &vec![1u8, 2]);
    middleware.service_mut().push(3);
    assert_eq!(middleware.service(), &vec![1u8, 2, 3]);
    assert_eq!(middleware.route_name(Some("/a")), "/a");
}

#[test]
fn a_layer_makes_a_middleware_for_each_service() {
    let layer = RequestTracing::with_formatter(Lowercase);
    let first = layer.new_transform(1u8);
    let second = layer.new_transform("two");
    assert_eq!(first.service(), &1u8);
    assert_eq!(second.service(), &"two");
    assert_eq!(first.route_name(Some("/A")), "/a");
    assert_eq!(second.route_name(Some("/B")), "/b");
}
