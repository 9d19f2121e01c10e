//! The router: picks, from a request's method and first path segment,
//! which handler answers it.  Dispatching to the chosen handler needs the
//! loaded documents, so the caller performs it with the target returned
//! from here.
use crate::handler::path_seg1;
use crate::http_request::{HttpRequest, Method};
use crate::text::str_eq;
use vstd::prelude::*;

verus! {

/// The handler a request is routed to.  `NoResponse` is the deliberate
/// policy for POST: the connection is closed without any bytes written.
#[derive(Debug, PartialEq, Eq, Structural, Clone, Copy)]
pub enum RouteTarget {
    Api,
    StaticFile,
    NoResponse,
    NotFound,
}

pub struct Router;

impl Router {
    /// The routing rule: GET under `api` goes to the web service, any
    /// other GET to the static file handler, POST gets no response at
    /// all, and every other method the not-found page.
    pub fn route(request: &HttpRequest) -> (r: RouteTarget)
        ensures
            (request.method == Method::Get && path_seg1(request.resource.path_view()) == "api"@)
                ==> r == RouteTarget::Api,
            (request.method == Method::Get && path_seg1(request.resource.path_view()) != "api"@)
                ==> r == RouteTarget::StaticFile,
            request.method == Method::Post ==> r == RouteTarget::NoResponse,
            (request.method != Method::Get && request.method != Method::Post) ==> r
                == RouteTarget::NotFound,
    {
        match request.method {
            Method::Get => {
                let seg = crate::handler::first_segment(request.resource.path().as_str());
                if str_eq(seg.as_str(), "api") {
                    RouteTarget::Api
                } else {
                    RouteTarget::StaticFile
                }
            },
            Method::Post => RouteTarget::NoResponse,
            _ => RouteTarget::NotFound,
        }
    }
}

} // verus!
