//! A router that matches the whole request path, its segments joined with
//! `/`, against a table of handlers.

use vstd::prelude::*;
use vstd::string::*;
use crate::str_map::StrMap;
use crate::text::{join, seq_join, string_views};

verus! {

/// The handlers a path router can hold.
#[derive(Clone, Copy, Debug, PartialEq, Eq, Structural)]
pub enum RouteHandler {
    /// Answers `Hello World !`.
    Hello,
    /// Answers `Hello World2 !`.
    Hello2,
}

/// The status and body of a router's answer.
pub open spec fn handler_reply(h: RouteHandler) -> (u16, Seq<char>) {
    match h {
        RouteHandler::Hello => (200, "Hello World !"@),
        RouteHandler::Hello2 => (200, "Hello World2 !"@),
    }
}

/// The answer to a request whose segments join to `path`: the handler's
/// answer, or `404 Not Found` with an empty body when no route matches.
pub open spec fn router_reply(routes: Map<Seq<char>, RouteHandler>, path: Seq<char>) -> (u16, Seq<char>) {
    if routes.contains_key(path) {
        handler_reply(routes[path])
    } else {
        (404, Seq::<char>::empty())
    }
}

/// The path a router matches: the URL's segments joined with `/`.
pub open spec fn joined_path(segments: Seq<String>) -> Seq<char> {
    seq_join(string_views(segments), "/"@)
}

/// The status and body of a handler's answer.
pub fn reply_of(h: RouteHandler) -> (r: (u16, String))
    ensures
        (r.0, r.1@) == handler_reply(h),
{
    match h {
        RouteHandler::Hello => (200, String::from_str("Hello World !")),
        RouteHandler::Hello2 => (200, String::from_str("Hello World2 !")),
    }
}

/// Looks up the joined path in a route table and answers.
pub fn route_reply(routes: &StrMap<RouteHandler>, path_segments: &Vec<String>) -> (r: (u16, String))
    ensures
        (r.0, r.1@) == router_reply(routes@, joined_path(path_segments@)),
{
    let path = join(path_segments, "/");
    match routes.get(path.as_str()) {
        Some(h) => reply_of(*h),
        None => (404, String::new()),
    }
}

/// A route added under a path answers every request whose segments join
/// to that path, and leaves the answers to all other paths as they were.
pub proof fn lemma_added_route_answers(
    routes: Map<Seq<char>, RouteHandler>,
    path: Seq<char>,
    h: RouteHandler,
    other: Seq<char>,
)
    requires
        other != path,
    ensures
        router_reply(routes.insert(path, h), path) == handler_reply(h),
        router_reply(routes.insert(path, h), other) == router_reply(routes, other),
{
}

/// Routes requests by their whole path.
pub struct Router {
    pub routes: StrMap<RouteHandler>,
}

impl Router {
    /// A router with no routes.
    pub fn new() -> (r: Self)
        ensures
            r.routes@ == Map::<Seq<char>, RouteHandler>::empty(),
    {
        Router { routes: StrMap::new() }
    }

    /// Routes requests for `path` to `handler`, replacing any route there.
    pub fn add_route(&mut self, path: String, handler: RouteHandler)
        ensures
            final(self).routes@ == old(self).routes@.insert(path@, handler),
    {
        self.routes.insert(path, handler);
    }

    /// Adds the `hello` route.
    pub fn init(&mut self)
        ensures
            final(self).routes@ == old(self).routes@.insert("hello"@, RouteHandler::Hello),
    {
        self.add_route(String::from_str("hello"), RouteHandler::Hello);
    }

    /// The answer to a request with these path segments.
    pub fn handle(&self, path_segments: &Vec<String>) -> (r: (u16, String))
        ensures
            (r.0, r.1@) == router_reply(self.routes@, joined_path(path_segments@)),
    {
        route_reply(&self.routes, path_segments)
    }
}

} // verus!
