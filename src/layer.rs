//! One registered route: an optional method filter, a compiled expression and
//! a handler.
use http::Method;
use regex::Regex;
use vstd::prelude::*;

use crate::engine::{new_regex, regex_accepts, regex_source, regex_text, same_method};
use crate::error::Error;
use crate::errors::BuildError;
use crate::pattern::{compile, opt_nat, route_expression};

verus! {

/// What a registered route is, as the contracts see it.
pub struct RouteView<T> {
    /// The method the route is for; `None` for every method.
    pub method: Option<Method>,
    /// The anchored expression of its pattern.
    pub source: Seq<char>,
    /// The group of its unnamed wildcard, if the pattern ends in a bare `*`.
    pub wildcard_group: Option<nat>,
    pub handler: T,
}

/// Whether a route for `filter` serves a request with `method`.
pub open spec fn accepts(filter: Option<Method>, method: Method) -> bool {
    filter is None || filter == Some(method)
}

pub(crate) struct Layer<T> {
    pub(crate) method: Option<Method>,
    pub(crate) regex: Regex,
    pub(crate) wildcard_group: Option<usize>,
    pub(crate) handler: T,
}

impl<T> Layer<T> {
    pub(crate) open spec fn view(&self) -> RouteView<T> {
        RouteView {
            method: self.method,
            source: regex_source(self.regex),
            wildcard_group: opt_nat(self.wildcard_group),
            handler: self.handler,
        }
    }

    /// Compiles `path` into a route for `method` and `handler`.
    pub(crate) fn from_parts(method: Option<Method>, path: &str, handler: T) -> (r: Result<
        Layer<T>,
        BuildError,
    >)
        ensures
            r matches Ok(layer) ==> route_expression(path@) == Ok::<_, BuildError>(
                (layer@.source, layer@.wildcard_group),
            ) && layer@.method == method && layer@.handler == handler,
            route_expression(path@) is Err ==> r == Err::<Layer<T>, _>(
                BuildError::InvalidParamName,
            ),
            r matches Err(e) ==> (e is InvalidParamName <==> route_expression(path@) is Err),
            route_expression(path@) matches Ok((source, _)) ==> (r is Ok <==> regex_accepts(
                source,
            )),
    {
        match compile(path) {
            Ok(c) => match new_regex(c.source.as_str()) {
                Ok(regex) => Ok(Layer { method, regex, wildcard_group: c.wildcard_group, handler }),
                Err(message) => Err(BuildError::Matcher(Error::from_message(message))),
            },
            Err(e) => Err(e),
        }
    }

    /// Whether the route serves requests with `method`.
    pub(crate) fn is_match(&self, method: &Method) -> (r: bool)
        ensures
            r == accepts(self@.method, *method),
    {
        match &self.method {
            Some(own) => same_method(own, method),
            None => true,
        }
    }

    pub(crate) fn handler(&self) -> (r: &T)
        ensures
            *r == self@.handler,
    {
        &self.handler
    }

    /// The compiled expression's text.
    pub(crate) fn pattern(&self) -> (r: &str)
        ensures
            r@ == self@.source,
    {
        regex_text(&self.regex)
    }
}

} // verus!
