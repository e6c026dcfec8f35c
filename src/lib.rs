//! A guarded route for a declarative router: what a route shows is decided by
//! the state of an asynchronous check, and route nodes are registered with
//! unique identifiers and their nested child routes.

pub mod guard;
pub mod route;
