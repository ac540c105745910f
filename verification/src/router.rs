//! From a request to its response: the routes, the methods that they take,
//! and the answer of each.

use vstd::prelude::*;
use vstd::string::*;
use axum::http::{HeaderMap, HeaderValue};
use crate::addr::{Addr, IpAddr, IpAddress};
use crate::csp::site_csp;
use crate::headers::{Accept, XForwardedProto};
use crate::identity::extracted;
use crate::negotiate::negotiated;
use crate::response::{
    csp_header, error_view, home, humans, humans_view, json, json_body, method_not_allowed_view,
    not_found, not_found_view, raw, represented, robots, robots_view, secured, text_body, typed,
    with_policy, Response, ResponseView, RouteClass,
};
use crate::security::SecurityContext;
use crate::state::{AppState, AppStateView};

verus! {

/// The method of a request, as far as the routes tell methods apart.
#[derive(Clone, Copy, Debug, PartialEq, Eq, Structural)]
pub enum Method {
    Get,
    Head,
    Other,
}

/// What a path leads to.
#[derive(Clone, Copy, Debug, PartialEq, Eq, Structural)]
pub enum Route {
    /// `/`: the address in the representation that the request accepts.
    Home,
    /// `/raw`: the address as a line of text.
    Raw,
    /// `/json`: the address as a JSON object.
    Json,
    /// `/robots.txt`
    Robots,
    /// `/humans.txt`
    Humans,
    /// Every other path.
    NotFound,
}

/// The route of a path.
pub open spec fn route_of(path: Seq<char>) -> Route {
    if path == "/"@ {
        Route::Home
    } else if path == "/raw"@ {
        Route::Raw
    } else if path == "/json"@ {
        Route::Json
    } else if path == "/robots.txt"@ {
        Route::Robots
    } else if path == "/humans.txt"@ {
        Route::Humans
    } else {
        Route::NotFound
    }
}

/// The class whose headers a route is answered with. The two fixed texts go
/// out under the policy of the primary page.
pub open spec fn class_of(route: Route) -> RouteClass {
    match route {
        Route::Home => RouteClass::PrimaryPage,
        Route::Raw => RouteClass::RawApi,
        Route::Json => RouteClass::JsonApi,
        Route::Robots => RouteClass::PrimaryPage,
        Route::Humans => RouteClass::PrimaryPage,
        Route::NotFound => RouteClass::NotFound,
    }
}

/// Whether a route takes a method: `/raw` and the answer to unknown paths
/// take every method, the others `GET` and `HEAD`.
pub open spec fn takes(route: Route, method: Method) -> bool {
    route == Route::Raw || route == Route::NotFound || method == Method::Get || method
        == Method::Head
}

/// The answer of a route before the headers of its class are added. The peer
/// address is `None` where the transport does not know it.
pub open spec fn bare_answer(
    state: AppStateView,
    nonce: Seq<char>,
    method: Method,
    route: Route,
    headers: HeaderMap<HeaderValue>,
    peer: Option<Addr>,
) -> ResponseView {
    if !takes(route, method) {
        method_not_allowed_view()
    } else {
        match route {
            Route::Home => match extracted(state.header, headers, peer) {
                Ok(addr) => represented(
                    negotiated(Some(Accept::of(headers))),
                    state,
                    addr,
                    XForwardedProto::of(headers),
                    nonce,
                ),
                Err(e) => error_view(e),
            },
            Route::Raw => match extracted(state.header, headers, peer) {
                Ok(addr) => typed(200, "text/plain; charset=utf-8"@, text_body(addr)),
                Err(e) => error_view(e),
            },
            Route::Json => match extracted(state.header, headers, peer) {
                Ok(addr) => typed(200, "application/json"@, json_body(addr)),
                Err(e) => error_view(e),
            },
            Route::Robots => robots_view(),
            Route::Humans => humans_view(state),
            Route::NotFound => not_found_view(state, nonce),
        }
    }
}

/// The answer to a request: what its route answers, with the headers of the
/// route's class and the content security policy of the request's nonce.
pub open spec fn answer(
    state: AppStateView,
    nonce: Seq<char>,
    method: Method,
    path: Seq<char>,
    headers: HeaderMap<HeaderValue>,
    peer: Option<Addr>,
) -> ResponseView {
    secured(
        bare_answer(state, nonce, method, route_of(path), headers, peer),
        class_of(route_of(path)),
        site_csp(state.root_dns_name, nonce),
    )
}

fn same(a: &str, b: &str) -> (r: bool)
    ensures
        r == (a@ == b@),
{
    String::from_str(a) == String::from_str(b)
}

/// The route of a path.
pub fn route(path: &str) -> (r: Route)
    ensures
        r == route_of(path@),
{
    if same(path, "/") {
        Route::Home
    } else if same(path, "/raw") {
        Route::Raw
    } else if same(path, "/json") {
        Route::Json
    } else if same(path, "/robots.txt") {
        Route::Robots
    } else if same(path, "/humans.txt") {
        Route::Humans
    } else {
        Route::NotFound
    }
}

/// The class whose headers a route is answered with.
pub fn route_class(route: Route) -> (class: RouteClass)
    ensures
        class == class_of(route),
{
    match route {
        Route::Home => RouteClass::PrimaryPage,
        Route::Raw => RouteClass::RawApi,
        Route::Json => RouteClass::JsonApi,
        Route::Robots => RouteClass::PrimaryPage,
        Route::Humans => RouteClass::PrimaryPage,
        Route::NotFound => RouteClass::NotFound,
    }
}

/// Whether a route takes a method.
pub fn route_takes(route: Route, method: Method) -> (r: bool)
    ensures
        r == takes(route, method),
{
    match route {
        Route::Raw => true,
        Route::NotFound => true,
        _ => match method {
            Method::Get => true,
            Method::Head => true,
            Method::Other => false,
        },
    }
}

fn method_not_allowed() -> (r: Response)
    ensures
        r@ == method_not_allowed_view(),
{
    let mut headers: Vec<(String, String)> = Vec::new();
    headers.push((String::from_str("allow"), String::from_str("GET,HEAD")));
    let r = Response { status: 405, headers, body: String::new() };
    assert(r@.headers =~= seq![("allow"@, "GET,HEAD"@)]);
    r
}

/// Answers a request.
pub fn respond(
    state: &AppState,
    ctx: &SecurityContext,
    method: Method,
    path: &str,
    headers: &HeaderMap<HeaderValue>,
    peer: Option<IpAddr>,
) -> (r: Response)
    ensures
        r@ == answer(
            state@,
            ctx.nonce_text(),
            method,
            path@,
            *headers,
            match peer {
                Some(addr) => Some(addr@),
                None => None,
            },
        ),
{
    let to = route(path);
    let bare = if !route_takes(to, method) {
        method_not_allowed()
    } else {
        match to {
            Route::Home => match IpAddress::from_request_parts(headers, peer, state) {
                Ok(ip) => {
                    let proto = XForwardedProto::from_request_parts(headers);
                    let accept = Accept::from_request_parts(headers);
                    home(&ip, &proto, ctx, &accept, state)
                },
                Err(e) => e.into_response(),
            },
            Route::Raw => match IpAddress::from_request_parts(headers, peer, state) {
                Ok(ip) => raw(&ip),
                Err(e) => e.into_response(),
            },
            Route::Json => match IpAddress::from_request_parts(headers, peer, state) {
                Ok(ip) => json(&ip),
                Err(e) => e.into_response(),
            },
            Route::Robots => robots(),
            Route::Humans => humans(state),
            Route::NotFound => not_found(ctx, state),
        }
    };
    with_policy(bare, route_class(to), csp_header(state, ctx))
}

} // verus!
