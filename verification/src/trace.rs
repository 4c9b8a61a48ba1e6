//! The tracing middleware: one server span for each request.
//!
//! The middleware does not touch a tracer. It says what to do, and its caller
//! does it: open a span when the request arrives, hand the request to the
//! inner service, and close the span when that settles. A `RequestTrace`
//! follows one request through these steps, so that its span is opened once
//! and closed once.

use std::rc::Rc;
use vstd::prelude::*;
use crate::attributes::{lemma_route_attribute, text_attribute, AttributeKey};
use crate::request::{RequestInfo, RequestView};
use crate::route_formatter::{
    formats_to, matched_or_default, route_or_default, AsMatched, RouteFormatter,
};
use crate::span::{closed_as, opened_as, span_end, span_start, Outcome, SpanEnd, SpanStart};

verus! {

/// Where the trace of a request stands.
#[derive(Clone, Copy, Debug, PartialEq, Eq, Structural)]
pub enum TraceState {
    /// No span yet.
    Idle,
    /// The span is open and the handler runs.
    SpanOpen,
    /// The span is closed.
    Completed,
}

/// What can happen to a request.
#[derive(Clone, Copy, Debug, PartialEq, Eq, Structural)]
pub enum Signal {
    /// The request arrived at the middleware.
    Arrived,
    /// The handler settled, with a response or with a failure.
    Settled,
}

/// Whether `signal` opens a span in `state`.
pub open spec fn opens(state: TraceState, signal: Signal) -> bool {
    state == TraceState::Idle && signal == Signal::Arrived
}

/// Whether `signal` closes a span in `state`.
pub open spec fn closes(state: TraceState, signal: Signal) -> bool {
    state == TraceState::SpanOpen && signal == Signal::Settled
}

/// The state after `signal` in `state`. A signal that neither opens nor
/// closes a span changes nothing.
pub open spec fn step(state: TraceState, signal: Signal) -> TraceState {
    if opens(state, signal) {
        TraceState::SpanOpen
    } else if closes(state, signal) {
        TraceState::Completed
    } else {
        state
    }
}

/// The state of a trace that has seen `history`.
pub open spec fn state_after(history: Seq<Signal>) -> TraceState
    decreases history.len(),
{
    if history.len() == 0 {
        TraceState::Idle
    } else {
        step(state_after(history.drop_last()), history.last())
    }
}

/// How many spans were opened in the course of `history`.
pub open spec fn spans_opened(history: Seq<Signal>) -> nat
    decreases history.len(),
{
    if history.len() == 0 {
        0
    } else if opens(state_after(history.drop_last()), history.last()) {
        spans_opened(history.drop_last()) + 1
    } else {
        spans_opened(history.drop_last())
    }
}

/// How many spans were closed in the course of `history`.
pub open spec fn spans_closed(history: Seq<Signal>) -> nat
    decreases history.len(),
{
    if history.len() == 0 {
        0
    } else if closes(state_after(history.drop_last()), history.last()) {
        spans_closed(history.drop_last()) + 1
    } else {
        spans_closed(history.drop_last())
    }
}

/// Whatever signals a trace has seen and in whatever order, it has opened at
/// most one span and closed none that it did not open. While it is idle there
/// is no span; while the span is open, one was opened and none closed; and
/// once it is completed, exactly one span was opened and exactly one closed.
pub proof fn lemma_one_span(history: Seq<Signal>)
    ensures
        match state_after(history) {
            TraceState::Idle => spans_opened(history) == 0 && spans_closed(history) == 0,
            TraceState::SpanOpen => spans_opened(history) == 1 && spans_closed(history) == 0,
            TraceState::Completed => spans_opened(history) == 1 && spans_closed(history) == 1,
        },
    decreases history.len(),
{
    if history.len() > 0 {
        lemma_one_span(history.drop_last());
    }
}

/// A span is never closed before it was opened: at every point of a history,
/// no more spans were closed than were opened.
pub proof fn lemma_closed_after_opened(history: Seq<Signal>, upto: int)
    requires
        0 <= upto <= history.len(),
    ensures
        spans_closed(history.take(upto)) <= spans_opened(history.take(upto)) <= 1,
{
    lemma_one_span(history.take(upto));
}

/// How far a trace has come.
pub open spec fn progress(state: TraceState) -> nat {
    match state {
        TraceState::Idle => 0,
        TraceState::SpanOpen => 1,
        TraceState::Completed => 2,
    }
}

/// A trace never goes back: at every point of a history it has come no
/// further than at the end.
pub proof fn lemma_trace_only_advances(history: Seq<Signal>, upto: int)
    requires
        0 <= upto <= history.len(),
    ensures
        progress(state_after(history.take(upto))) <= progress(state_after(history)),
    decreases history.len(),
{
    if upto == history.len() {
        assert(history.take(upto) =~= history);
    } else {
        assert(history.drop_last().take(upto) =~= history.take(upto));
        lemma_trace_only_advances(history.drop_last(), upto);
    }
}

/// No span is left open on a request that was served: once the request has
/// arrived and, later, its handler has settled, the trace is completed,
/// whatever else it has seen.
pub proof fn lemma_served_request_is_completed(history: Seq<Signal>, arrived: int, settled: int)
    requires
        0 <= arrived < settled < history.len(),
        history[arrived] == Signal::Arrived,
        history[settled] == Signal::Settled,
    ensures
        state_after(history) == TraceState::Completed,
{
    let upto_arrival = history.take(arrived + 1);
    let before_settling = history.take(settled);
    let upto_settling = history.take(settled + 1);
    assert(upto_arrival.last() == Signal::Arrived);
    assert(progress(state_after(upto_arrival)) >= 1);
    assert(before_settling.take(arrived + 1) =~= upto_arrival);
    lemma_trace_only_advances(before_settling, arrived + 1);
    assert(upto_settling.drop_last() =~= before_settling);
    assert(upto_settling.last() == Signal::Settled);
    assert(state_after(upto_settling) == TraceState::Completed);
    lemma_trace_only_advances(history, settled + 1);
}

/// The trace of one request.
pub struct RequestTrace {
    state: TraceState,
    history: Ghost<Seq<Signal>>,
}

/// What a trace holds: its state, and the signals it has seen.
pub ghost struct TraceView {
    pub state: TraceState,
    pub history: Seq<Signal>,
}

impl View for RequestTrace {
    type V = TraceView;

    closed spec fn view(&self) -> TraceView {
        TraceView { state: self.state, history: self.history@ }
    }
}

impl RequestTrace {
    #[verifier::type_invariant]
    spec fn follows_history(&self) -> bool {
        self.state == state_after(self.history@)
    }

    /// The trace of a request that has just come in.
    pub fn new() -> (trace: RequestTrace)
        ensures
            trace@.state == TraceState::Idle,
            trace@.history == Seq::<Signal>::empty(),
    {
        RequestTrace { state: TraceState::Idle, history: Ghost(Seq::empty()) }
    }

    /// Where the trace stands. The state is the one that the signals seen so
    /// far lead to.
    pub fn state(&self) -> (state: TraceState)
        ensures
            state == self@.state,
            state == state_after(self@.history),
    {
        proof {
            use_type_invariant(self);
        }
        self.state
    }

    /// Takes note that the request arrived. The result says whether a span
    /// is to be opened for it.
    fn arrive(&mut self) -> (open: bool)
        ensures
            open == opens(old(self)@.state, Signal::Arrived),
            final(self)@.state == step(old(self)@.state, Signal::Arrived),
            final(self)@.history == old(self)@.history.push(Signal::Arrived),
            final(self)@.state == state_after(final(self)@.history),
    {
        proof {
            use_type_invariant(&*self);
        }
        let ghost seen = self.history@;
        assert(seen.push(Signal::Arrived).drop_last() =~= seen);
        match self.state {
            TraceState::Idle => {
                *self = RequestTrace {
                    state: TraceState::SpanOpen,
                    history: Ghost(seen.push(Signal::Arrived)),
                };
                true
            },
            _ => {
                *self = RequestTrace {
                    state: self.state,
                    history: Ghost(seen.push(Signal::Arrived)),
                };
                false
            },
        }
    }

    /// Takes note that the handler settled, and says what to close the span
    /// with. Where no span is open, there is nothing to close.
    pub fn settle(&mut self, outcome: &Outcome) -> (end: Option<SpanEnd>)
        ensures
            final(self)@.state == step(old(self)@.state, Signal::Settled),
            final(self)@.history == old(self)@.history.push(Signal::Settled),
            final(self)@.state == state_after(final(self)@.history),
            match end {
                Some(e) => closes(old(self)@.state, Signal::Settled) && e@ == closed_as(outcome@),
                None => !closes(old(self)@.state, Signal::Settled),
            },
    {
        proof {
            use_type_invariant(&*self);
        }
        let ghost seen = self.history@;
        assert(seen.push(Signal::Settled).drop_last() =~= seen);
        match self.state {
            TraceState::SpanOpen => {
                *self = RequestTrace {
                    state: TraceState::Completed,
                    history: Ghost(seen.push(Signal::Settled)),
                };
                Some(span_end(outcome))
            },
            _ => {
                *self = RequestTrace {
                    state: self.state,
                    history: Ghost(seen.push(Signal::Settled)),
                };
                None
            },
        }
    }
}

/// Whether `name` is the name of the route `matched` under `formatter`: what
/// the formatter gave for the route, or the route itself where there is no
/// formatter. A request that matched no route is filed under `default`.
pub open spec fn names_route<F: RouteFormatter>(
    formatter: Option<F>,
    matched: Option<Seq<char>>,
    name: String,
) -> bool {
    match formatter {
        Some(f) => formats_to(f, route_or_default(matched), name),
        None => name@ == route_or_default(matched),
    }
}

/// Without a formatter, a request is reported under the route that matched it
/// as that route stands, and under `default` where none matched: this is the
/// name of its span and the value of its route attribute.
pub proof fn lemma_route_as_matched<F: RouteFormatter>(request: RequestView, name: String)
    requires
        names_route(None::<F>, request.matched_route, name),
    ensures
        opened_as(request, name@).name == route_or_default(request.matched_route),
        opened_as(request, name@).attributes[3] == text_attribute(
            AttributeKey::HttpRoute,
            route_or_default(request.matched_route),
        ),
        request.matched_route is None ==> opened_as(request, name@).name == "default"@,
{
    lemma_route_attribute(request, name@);
}

/// With a formatter, a request is reported under what the formatter gave for
/// the route that matched it, or for `default` where none matched: this is
/// the name of its span and the value of its route attribute.
pub proof fn lemma_route_as_formatted<F: RouteFormatter>(
    formatter: F,
    request: RequestView,
    name: String,
)
    requires
        names_route(Some(formatter), request.matched_route, name),
    ensures
        formats_to(formatter, route_or_default(request.matched_route), name),
        opened_as(request, name@).name == name@,
        opened_as(request, name@).attributes[3] == text_attribute(
            AttributeKey::HttpRoute,
            name@,
        ),
{
    lemma_route_attribute(request, name@);
}

/// Another pointer to a shared formatter.
///
/// Trusted: `Rc::clone` of std, which makes a pointer to the same
/// allocation, so that both point to one value.
#[verifier::external_body]
fn share<F>(formatter: &Rc<F>) -> (shared: Rc<F>)
    ensures
        shared == formatter,
{
    Rc::clone(formatter)
}

/// The tracing layer of an application: it makes a tracing middleware for
/// each service it is wrapped around.
#[derive(Debug)]
pub struct RequestTracing<F = AsMatched> {
    route_formatter: Option<Rc<F>>,
}

impl RequestTracing<AsMatched> {
    /// A layer that reports each request under the route as it was matched.
    pub fn new() -> (tracing: RequestTracing)
        ensures
            tracing.formatter() is None,
    {
        RequestTracing { route_formatter: None }
    }
}

impl Default for RequestTracing<AsMatched> {
    fn default() -> (tracing: RequestTracing)
        ensures
            tracing.formatter() is None,
    {
        RequestTracing::new()
    }
}

impl<F: RouteFormatter> RequestTracing<F> {
    /// The formatter of the layer, where it has one.
    pub closed spec fn formatter(&self) -> Option<F> {
        match self.route_formatter {
            Some(f) => Some(*f),
            None => None,
        }
    }

    /// A layer that reports each request under the name that
    /// `route_formatter` gives to its route.
    pub fn with_formatter(route_formatter: F) -> (tracing: Self)
        ensures
            tracing.formatter() == Some(route_formatter),
    {
        RequestTracing { route_formatter: Some(Rc::new(route_formatter)) }
    }

    /// The middleware around `service`. It shares the formatter of the layer.
    pub fn new_transform<S>(&self, service: S) -> (middleware: RequestTracingMiddleware<S, F>)
        ensures
            middleware.formatter() == self.formatter(),
            middleware.inner() == service,
    {
        let route_formatter = match &self.route_formatter {
            Some(f) => Some(share(f)),
            None => None,
        };
        RequestTracingMiddleware::new(service, route_formatter)
    }
}

/// The tracing middleware around one service.
#[derive(Debug)]
pub struct RequestTracingMiddleware<S, F = AsMatched> {
    service: S,
    route_formatter: Option<Rc<F>>,
}

impl<S, F: RouteFormatter> RequestTracingMiddleware<S, F> {
    /// The formatter of the middleware, where it has one.
    pub closed spec fn formatter(&self) -> Option<F> {
        match self.route_formatter {
            Some(f) => Some(*f),
            None => None,
        }
    }

    /// The service that the middleware is wrapped around.
    pub closed spec fn inner(&self) -> S {
        self.service
    }

    /// A middleware around `service`, with a formatter or without.
    pub fn new(service: S, route_formatter: Option<Rc<F>>) -> (middleware: Self)
        ensures
            middleware.inner() == service,
            middleware.formatter() == match route_formatter {
                Some(f) => Some(*f),
                None => None,
            },
    {
        RequestTracingMiddleware { service, route_formatter }
    }

    /// The inner service.
    pub fn service(&self) -> (service: &S)
        ensures
            *service == self.inner(),
    {
        &self.service
    }

    /// The inner service, to call it. The formatter stays as it is.
    pub fn service_mut(&mut self) -> (service: &mut S)
        ensures
            *service == old(self).inner(),
            final(self).inner() == *final(service),
            final(self).formatter() == old(self).formatter(),
    {
        &mut self.service
    }

    /// The name under which a request is reported: the route that matched,
    /// or `default` where none did, as the formatter renders it.
    pub fn route_name(&self, matched: Option<&str>) -> (name: String)
        ensures
            names_route(
                self.formatter(),
                match matched {
                    Some(m) => Some(m@),
                    None => None,
                },
                name,
            ),
    {
        let route = matched_or_default(matched);
        match &self.route_formatter {
            Some(f) => f.format(route.as_str()),
            None => route,
        }
    }

    /// Takes note that `request` arrived, and says what to open its span
    /// with. Only the first arrival opens a span.
    ///
    /// The span is named by the request's route, it is a server span, and it
    /// has the attributes of the request.
    pub fn open_span(&self, trace: &mut RequestTrace, request: &RequestInfo) -> (start: Option<
        SpanStart,
    >)
        ensures
            final(trace)@.state == step(old(trace)@.state, Signal::Arrived),
            final(trace)@.history == old(trace)@.history.push(Signal::Arrived),
            final(trace)@.state == state_after(final(trace)@.history),
            match start {
                Some(s) => {
                    &&& opens(old(trace)@.state, Signal::Arrived)
                    &&& names_route(self.formatter(), request@.matched_route, s.name)
                    &&& s@ == opened_as(request@, s.name@)
                },
                None => !opens(old(trace)@.state, Signal::Arrived),
            },
    {
        if !trace.arrive() {
            return None;
        }
        let matched: Option<&str> = match &request.matched_route {
            Some(m) => Some(m.as_str()),
            None => None,
        };
        let name = self.route_name(matched);
        Some(span_start(request, name))
    }
}

} // verus!
