//! Removal of empty-valued parameters from HTTP query strings.
//!
//! A query such as `a=1&b=` is rewritten to `a=1`: the parameters whose
//! decoded value is empty are dropped, the others are kept in their order and
//! written anew under one escaping policy. A query that holds no such
//! parameter is handed back as it is.

pub mod escape;
pub mod middleware;
pub mod normalize;
pub mod params;

pub use middleware::{Layer, Service};
pub use normalize::{needs_modification, remove_empty_query_params};
