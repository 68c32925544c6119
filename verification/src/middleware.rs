//! The request stage: a layer that wraps a service, and the wrapped service.

use crate::normalize::{has_empty_value, joined, kept, remove_empty_query_params};
use crate::params::query_params;
use std::borrow::Cow;
use vstd::prelude::*;
use vstd::string::StringExecFns;

verus! {

/// A middleware layer that strips out empty parameters.
#[derive(Clone)]
pub struct Layer;

/// A service wrapped by [`Layer`]: it hands each request on to the service it
/// wraps, with the empty parameters removed from the request's query.
#[derive(Clone)]
pub struct Service<S> {
    s: S,
}

/// The target that a request is handed on with, where it has to change: the
/// path, `?`, and the query without its empty-valued parameters. `None` where
/// the request has no query, or a query without such a parameter.
pub open spec fn rewritten_target(path: Seq<char>, query: Option<Seq<char>>) -> Option<Seq<char>> {
    match query {
        None => None,
        Some(q) => if has_empty_value(query_params(q)) {
            Some(path + seq!['?'] + joined(kept(query_params(q))))
        } else {
            None
        },
    }
}

/// The text of an optional string.
pub open spec fn text_view(text: Option<String>) -> Option<Seq<char>> {
    match text {
        None => None,
        Some(t) => Some(t@),
    }
}

/// The text of an optional string slice.
pub open spec fn slice_view(text: Option<&str>) -> Option<Seq<char>> {
    match text {
        None => None,
        Some(t) => Some(t@),
    }
}

impl Layer {
    /// Wraps the service `s`.
    pub fn layer<S>(&self, s: S) -> (out: Service<S>)
        ensures
            out.inner() == s,
    {
        Service { s }
    }
}

impl<S> Service<S> {
    /// The service that this one wraps.
    pub closed spec fn inner(&self) -> S {
        self.s
    }

    /// The service that this one wraps.
    pub fn get_ref(&self) -> (s: &S)
        ensures
            *s == self.inner(),
    {
        &self.s
    }

    /// The service that this one wraps, to change or to call.
    pub fn get_mut(&mut self) -> (s: &mut S)
        ensures
            *s == old(self).inner(),
            final(self).inner() == *final(s),
    {
        &mut self.s
    }

    /// Gives back the service that this one wraps.
    pub fn into_inner(self) -> (s: S)
        ensures
            s == self.inner(),
    {
        self.s
    }

    /// Decides what target a request with the given path and query is handed
    /// on with: `None` where the target stays as it is.
    pub fn rewrite_target(&self, path: &str, query: Option<&str>) -> (out: Option<String>)
        ensures
            text_view(out) == rewritten_target(path@, slice_view(query)),
    {
        match query {
            None => None,
            Some(q) => match remove_empty_query_params(q) {
                Cow::Borrowed(_) => None,
                Cow::Owned(nq) => {
                    let mut target = String::new();
                    target.append(path);
                    target.push('?');
                    target.append(nq.as_str());
                    Some(target)
                },
            },
        }
    }
}

} // verus!
