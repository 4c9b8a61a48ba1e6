//! The name under which a request is reported.
//!
//! A span is named by the route that matched the request, never by the path
//! that was asked for: there are as many paths as there are requests, and only
//! as many routes as the application declares.

use vstd::prelude::*;
use vstd::string::StringExecFns;

verus! {

/// Turns a matched route into the name of its span, for instance
/// `/users/{id}` into `/users/:id`.
///
/// A formatter is called once for each request. It is expected to give the
/// same name for the same route, and to do nothing else.
pub trait RouteFormatter {
    /// The name for `path`.
    fn format(&self, path: &str) -> String;
}

/// The formatter that leaves a route as it was matched.
#[derive(Clone, Copy, Debug, Default)]
pub struct AsMatched;

impl RouteFormatter for AsMatched {
    fn format(&self, path: &str) -> (name: String)
        ensures
            name@ == path@,
    {
        String::from_str(path)
    }
}

/// The route of a request that matched none.
pub open spec fn default_route() -> Seq<char> {
    "default"@
}

/// The route that a request is filed under: the one that matched, or the
/// default.
pub open spec fn route_or_default(matched: Option<Seq<char>>) -> Seq<char> {
    match matched {
        Some(route) => route,
        None => default_route(),
    }
}

/// Whether `formatter` gave `name` for the route `route`.
pub open spec fn formats_to<F: RouteFormatter>(formatter: F, route: Seq<char>, name: String) -> bool {
    exists|path: &str| path@ == route && #[trigger] call_ensures(F::format, (&formatter, path), name)
}

/// The route that a request is filed under: `matched`, or `default` where no
/// route matched.
pub fn matched_or_default(matched: Option<&str>) -> (route: String)
    ensures
        route@ == route_or_default(
            match matched {
                Some(m) => Some(m@),
                None => None,
            },
        ),
{
    match matched {
        Some(m) => String::from_str(m),
        None => String::from_str("default"),
    }
}

} // verus!
