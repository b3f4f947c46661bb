//! The path router with both greeting routes, `hello` and `hello2`.

use vstd::prelude::*;
use vstd::string::*;
use crate::str_map::StrMap;
use crate::server::router::{RouteHandler, router_reply, joined_path, route_reply};

verus! {

/// Routes requests by their whole path.
pub struct Router {
    pub routes: StrMap<RouteHandler>,
}

impl Router {
    /// A router with no routes.
    pub fn new() -> (r: Self)
        ensures
            r.routes@ == Map::<Seq<char>, RouteHandler>::empty(),
    {
        Router { routes: StrMap::new() }
    }

    /// Routes requests for `path` to `handler`, replacing any route there.
    pub fn add_route(&mut self, path: String, handler: RouteHandler)
        ensures
            final(self).routes@ == old(self).routes@.insert(path@, handler),
    {
        self.routes.insert(path, handler);
    }

    /// Adds the `hello` and `hello2` routes.
    pub fn init(&mut self)
        ensures
            final(self).routes@ == old(self).routes@.insert("hello"@, RouteHandler::Hello).insert(
                "hello2"@,
                RouteHandler::Hello2,
            ),
    {
        self.add_route(String::from_str("hello"), RouteHandler::Hello);
        self.add_route(String::from_str("hello2"), RouteHandler::Hello2);
    }

    /// The answer to a request with these path segments.
    pub fn handle(&self, path_segments: &Vec<String>) -> (r: (u16, String))
        ensures
            (r.0, r.1@) == router_reply(self.routes@, joined_path(path_segments@)),
    {
        route_reply(&self.routes, path_segments)
    }
}

} // verus!
