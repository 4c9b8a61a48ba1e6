//! Request tracing for an HTTP server: the rules by which one inbound request
//! becomes one server span.
//!
//! The crate holds the decisions and leaves the effects to its caller. From a
//! description of the request it derives the span's name and attributes; from
//! the handler's outcome it derives the span's final status; and a small state
//! machine records that a span is opened once and closed once.

pub mod attributes;
pub mod carrier;
pub mod flavor;
pub mod port;
pub mod request;
pub mod route_formatter;
pub mod span;
pub mod status;
pub mod text;
pub mod trace;

pub use crate::attributes::{collect_attributes, Attribute, AttributeKey, AttributeValue};
pub use crate::carrier::RequestHeaderCarrier;
pub use crate::request::RequestInfo;
pub use crate::route_formatter::{AsMatched, RouteFormatter};
pub use crate::span::{span_end, span_start, Outcome, SpanEnd, SpanKind, SpanStart};
pub use crate::status::{map_status, SpanStatus};
pub use crate::trace::{RequestTrace, RequestTracing, RequestTracingMiddleware, TraceState};
