//! What a span is opened with and what it is closed with.

use vstd::prelude::*;
use crate::attributes::{
    collect_attributes, request_attributes, views, Attribute, AttributeKey, AttributeValue,
    AttributeView, ValueView,
};
use crate::request::{RequestInfo, RequestView};
use crate::status::{map_status, status_of, SpanStatus};

verus! {

/// The side of an operation that a span describes.
#[derive(Clone, Copy, Debug, PartialEq, Eq, Structural)]
pub enum SpanKind {
    Client,
    Server,
    Producer,
    Consumer,
    Internal,
}

/// What a span is opened with. The attributes are all there from the start;
/// none is added while the handler runs.
#[derive(Debug)]
pub struct SpanStart {
    pub name: String,
    pub kind: SpanKind,
    pub attributes: Vec<Attribute>,
}

/// What the opening of a span holds.
pub ghost struct SpanStartView {
    pub name: Seq<char>,
    pub kind: SpanKind,
    pub attributes: Seq<AttributeView>,
}

impl View for SpanStart {
    type V = SpanStartView;

    open spec fn view(&self) -> SpanStartView {
        SpanStartView { name: self.name@, kind: self.kind, attributes: views(self.attributes@) }
    }
}

/// How the handler of a request settled: with a response, of which the
/// status code counts, or with a failure, of which the description does.
#[derive(Debug)]
pub enum Outcome {
    Response { status: u16 },
    Failure { description: String },
}

/// What an outcome holds.
pub ghost enum OutcomeView {
    Response { status: u16 },
    Failure { description: Seq<char> },
}

impl View for Outcome {
    type V = OutcomeView;

    open spec fn view(&self) -> OutcomeView {
        match self {
            Outcome::Response { status } => OutcomeView::Response { status: *status },
            Outcome::Failure { description } => OutcomeView::Failure {
                description: description@,
            },
        }
    }
}

/// What a span is closed with: the attributes that are added last, the
/// status, and a message that says more about it.
#[derive(Debug)]
pub struct SpanEnd {
    pub attributes: Vec<Attribute>,
    pub status: SpanStatus,
    pub message: String,
}

/// What the closing of a span holds.
pub ghost struct SpanEndView {
    pub attributes: Seq<AttributeView>,
    pub status: SpanStatus,
    pub message: Seq<char>,
}

impl View for SpanEnd {
    type V = SpanEndView;

    open spec fn view(&self) -> SpanEndView {
        SpanEndView {
            attributes: views(self.attributes@),
            status: self.status,
            message: self.message@,
        }
    }
}

/// The opening of the server span for `request`, reported under `route`: the
/// route is its name, and the request's attributes are its attributes.
pub open spec fn opened_as(request: RequestView, route: Seq<char>) -> SpanStartView {
    SpanStartView {
        name: route,
        kind: SpanKind::Server,
        attributes: request_attributes(request, route),
    }
}

/// The status code of a response, as an attribute.
pub open spec fn status_code_attribute(status: u16) -> AttributeView {
    AttributeView { key: AttributeKey::HttpStatusCode, value: ValueView::Unsigned(status as u64) }
}

/// The closing of a span whose handler settled with `outcome`.
///
/// A response adds its status code to the span and gives it the status that
/// the code maps to, with no message. A failure adds nothing and gives the
/// span the status `Internal`, with the failure's description for a message.
pub open spec fn closed_as(outcome: OutcomeView) -> SpanEndView {
    match outcome {
        OutcomeView::Response { status } => SpanEndView {
            attributes: seq![status_code_attribute(status)],
            status: status_of(status),
            message: Seq::empty(),
        },
        OutcomeView::Failure { description } => SpanEndView {
            attributes: Seq::empty(),
            status: SpanStatus::Internal,
            message: description,
        },
    }
}

/// What to open the span for `request` with, once its route has its name.
pub fn span_start(request: &RequestInfo, route: String) -> (start: SpanStart)
    ensures
        start.name == route,
        start@ == opened_as(request@, route@),
{
    let attributes = collect_attributes(request, route.as_str());
    SpanStart { name: route, kind: SpanKind::Server, attributes }
}

/// What to close a span with, given how the handler settled.
pub fn span_end(outcome: &Outcome) -> (end: SpanEnd)
    ensures
        end@ == closed_as(outcome@),
{
    match outcome {
        Outcome::Response { status } => {
            let mut attributes: Vec<Attribute> = Vec::new();
            attributes.push(
                Attribute {
                    key: AttributeKey::HttpStatusCode,
                    value: AttributeValue::Unsigned(*status as u64),
                },
            );
            let end = SpanEnd { attributes, status: map_status(*status), message: String::new() };
            assert(end@.attributes =~= seq![status_code_attribute(*status)]);
            end
        },
        Outcome::Failure { description } => {
            let end = SpanEnd {
                attributes: Vec::new(),
                status: SpanStatus::Internal,
                message: description.clone(),
            };
            assert(end@.attributes =~= Seq::empty());
            end
        },
    }
}

} // verus!
