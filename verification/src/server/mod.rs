//! The HTTP side of the service: tags, routes and what each handler does.

pub mod http;
pub mod router;
pub mod tag;
pub mod tagging_router;
