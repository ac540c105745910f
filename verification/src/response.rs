//! Responses: what each route answers, and the headers that each route's
//! policy and the content security policy add.

use vstd::prelude::*;
use vstd::string::*;
use crate::addr::{ip_text, Addr, IpAddr, IpAddress};
use crate::csp::{csp_value, lemma_site_csp_header_text, site_csp};
use crate::error::Error;
use crate::headers::{Accept, XForwardedProto};
use crate::identity::ClientIdentity;
use crate::negotiate::{negotiate, negotiated, NegotiatedFormat};
use crate::pages::{index, index_html, not_found_html, IndexPage, IndexPageView, NotFoundPage,
    NotFoundPageView};
use crate::security::SecurityContext;
use crate::state::{AppState, AppStateView};
use crate::text::chars_of;

verus! {

/// A response before it is handed to the transport.
#[derive(Clone, Debug, PartialEq, Eq)]
pub struct Response {
    pub status: u16,
    /// Names, in lower case, and values, in the order in which they were set.
    pub headers: Vec<(String, String)>,
    pub body: String,
}

/// The mathematical value of a [`Response`].
pub struct ResponseView {
    pub status: int,
    pub headers: Seq<(Seq<char>, Seq<char>)>,
    pub body: Seq<char>,
}

/// The names and values that the headers spell.
pub open spec fn header_views(headers: Seq<(String, String)>) -> Seq<(Seq<char>, Seq<char>)> {
    Seq::new(headers.len(), |i: int| (headers[i].0@, headers[i].1@))
}

impl View for Response {
    type V = ResponseView;

    open spec fn view(&self) -> ResponseView {
        ResponseView {
            status: self.status as int,
            headers: header_views(self.headers@),
            body: self.body@,
        }
    }
}

/// The routes by the headers that they are answered with.
#[derive(Clone, Copy, Debug, PartialEq, Eq, Structural)]
pub enum RouteClass {
    PrimaryPage,
    RawApi,
    JsonApi,
    StaticAsset,
    NotFound,
}

/// How long a response may be kept.
#[derive(Clone, Copy, Debug, PartialEq, Eq, Structural)]
pub enum CacheControl {
    NoStore,
    Immutable1Year,
    Default,
}

/// The headers that a class of routes is answered with.
#[derive(Clone, Copy, Debug, PartialEq, Eq, Structural)]
pub struct HeaderPolicy {
    pub robots_noindex: bool,
    pub cache_control: CacheControl,
    pub cors_allow_all: bool,
}

/// The policy of each class: nothing is indexed; only static assets are kept;
/// only the two address APIs may be read from other origins.
pub open spec fn policy_of(class: RouteClass) -> HeaderPolicy {
    match class {
        RouteClass::PrimaryPage => HeaderPolicy {
            robots_noindex: true,
            cache_control: CacheControl::NoStore,
            cors_allow_all: false,
        },
        RouteClass::RawApi => HeaderPolicy {
            robots_noindex: true,
            cache_control: CacheControl::NoStore,
            cors_allow_all: true,
        },
        RouteClass::JsonApi => HeaderPolicy {
            robots_noindex: true,
            cache_control: CacheControl::NoStore,
            cors_allow_all: true,
        },
        RouteClass::StaticAsset => HeaderPolicy {
            robots_noindex: true,
            cache_control: CacheControl::Immutable1Year,
            cors_allow_all: false,
        },
        RouteClass::NotFound => HeaderPolicy {
            robots_noindex: true,
            cache_control: CacheControl::NoStore,
            cors_allow_all: false,
        },
    }
}

/// The policy of a class of routes.
pub fn route_policy(class: RouteClass) -> (policy: HeaderPolicy)
    ensures
        policy == policy_of(class),
{
    match class {
        RouteClass::PrimaryPage => HeaderPolicy {
            robots_noindex: true,
            cache_control: CacheControl::NoStore,
            cors_allow_all: false,
        },
        RouteClass::RawApi => HeaderPolicy {
            robots_noindex: true,
            cache_control: CacheControl::NoStore,
            cors_allow_all: true,
        },
        RouteClass::JsonApi => HeaderPolicy {
            robots_noindex: true,
            cache_control: CacheControl::NoStore,
            cors_allow_all: true,
        },
        RouteClass::StaticAsset => HeaderPolicy {
            robots_noindex: true,
            cache_control: CacheControl::Immutable1Year,
            cors_allow_all: false,
        },
        RouteClass::NotFound => HeaderPolicy {
            robots_noindex: true,
            cache_control: CacheControl::NoStore,
            cors_allow_all: false,
        },
    }
}

/// The `X-Robots-Tag` header of a policy.
pub open spec fn robots_headers(policy: HeaderPolicy) -> Seq<(Seq<char>, Seq<char>)> {
    if policy.robots_noindex {
        seq![("x-robots-tag"@, "noindex"@)]
    } else {
        seq![]
    }
}

/// The `Cache-Control` header of a policy.
pub open spec fn cache_headers(policy: HeaderPolicy) -> Seq<(Seq<char>, Seq<char>)> {
    match policy.cache_control {
        CacheControl::NoStore => seq![("cache-control"@, "no-store, private"@)],
        CacheControl::Immutable1Year => seq![
            ("cache-control"@, "public, max-age=31536000, immutable"@),
        ],
        CacheControl::Default => seq![],
    }
}

/// The `Access-Control-Allow-Origin` header of a policy.
pub open spec fn cors_headers(policy: HeaderPolicy) -> Seq<(Seq<char>, Seq<char>)> {
    if policy.cors_allow_all {
        seq![("access-control-allow-origin"@, "*"@)]
    } else {
        seq![]
    }
}

/// The headers that a policy asks for.
pub open spec fn policy_headers(policy: HeaderPolicy) -> Seq<(Seq<char>, Seq<char>)> {
    robots_headers(policy) + cache_headers(policy) + cors_headers(policy)
}

/// The response with the headers of its route's class and the content
/// security policy added behind its own.
pub open spec fn secured(response: ResponseView, class: RouteClass, csp: Seq<char>)
    -> ResponseView {
    ResponseView {
        status: response.status,
        headers: response.headers + policy_headers(policy_of(class)) + seq![
            ("content-security-policy"@, csp),
        ],
        body: response.body,
    }
}

/// A response with a content type and a body.
pub open spec fn typed(status: int, content_type: Seq<char>, body: Seq<char>) -> ResponseView {
    ResponseView { status, headers: seq![("content-type"@, content_type)], body }
}

/// The content type of a representation.
pub open spec fn content_type_of(format: NegotiatedFormat) -> Seq<char> {
    match format {
        NegotiatedFormat::Html => "text/html; charset=utf-8"@,
        NegotiatedFormat::Json => "application/json"@,
        NegotiatedFormat::PlainText => "text/plain; charset=utf-8"@,
    }
}

/// The address as a line of text.
pub open spec fn text_body(addr: Addr) -> Seq<char> {
    chars_of(ip_text(addr)) + "\n"@
}

/// The IP version as a digit.
pub open spec fn version_text(addr: Addr) -> Seq<char> {
    match addr {
        Addr::V4(_) => "4"@,
        Addr::V6(_) => "6"@,
    }
}

/// The address as a JSON object with its version and its text.
pub open spec fn json_body(addr: Addr) -> Seq<char> {
    "{\"version\":"@ + version_text(addr) + ",\"address\":\""@ + chars_of(ip_text(addr)) + "\"}"@
}

/// What the address page of a request shows.
pub open spec fn page_of(state: AppStateView, addr: Addr, proto: Seq<char>, nonce: Seq<char>)
    -> IndexPageView {
    IndexPageView {
        root_dns_name: state.root_dns_name,
        ip: addr,
        description: state.description,
        proto,
        nonce,
        style: state.style,
        script: state.script,
    }
}

/// The body of a representation of the address.
pub open spec fn body_of(
    format: NegotiatedFormat,
    state: AppStateView,
    addr: Addr,
    proto: Seq<char>,
    nonce: Seq<char>,
) -> Seq<char> {
    match format {
        NegotiatedFormat::Html => index_html(page_of(state, addr, proto, nonce)),
        NegotiatedFormat::Json => json_body(addr),
        NegotiatedFormat::PlainText => text_body(addr),
    }
}

/// The address in a representation.
pub open spec fn represented(
    format: NegotiatedFormat,
    state: AppStateView,
    addr: Addr,
    proto: Seq<char>,
    nonce: Seq<char>,
) -> ResponseView {
    typed(200, content_type_of(format), body_of(format, state, addr, proto, nonce))
}

/// The answer to an error: status 500 and the error's message.
pub open spec fn error_view(e: Error) -> ResponseView {
    typed(500, "text/plain; charset=utf-8"@, e.message_text())
}

/// The body of `/robots.txt`.
pub open spec fn robots_text() -> Seq<char> {
    "User-Agent: *\nAllow: /"@
}

/// The answer of `/robots.txt`.
pub open spec fn robots_view() -> ResponseView {
    typed(200, "text/plain; charset=utf-8"@, robots_text())
}

/// The answer of `/humans.txt`.
pub open spec fn humans_view(state: AppStateView) -> ResponseView {
    typed(200, "text/plain; charset=utf-8"@, state.humans)
}

/// The answer to a path that is no route: status 404 and the "not found" page.
pub open spec fn not_found_view(state: AppStateView, nonce: Seq<char>) -> ResponseView {
    typed(
        404,
        "text/html; charset=utf-8"@,
        not_found_html(NotFoundPageView { nonce, style: state.style }),
    )
}

/// The answer to a method that a route does not take: status 405 and the
/// methods that it takes.
pub open spec fn method_not_allowed_view() -> ResponseView {
    ResponseView { status: 405, headers: seq![("allow"@, "GET,HEAD"@)], body: seq![] }
}

fn push_header(headers: &mut Vec<(String, String)>, name: &str, value: String)
    ensures
        header_views(final(headers)@) == header_views(old(headers)@).push((name@, value@)),
{
    let ghost v = value@;
    headers.push((String::from_str(name), value));
    assert(header_views(headers@) =~= header_views(old(headers)@).push((name@, v)));
}

fn typed_response(status: u16, content_type: &str, body: String) -> (r: Response)
    ensures
        r@ == typed(status as int, content_type@, body@),
{
    let mut headers: Vec<(String, String)> = Vec::new();
    assert(header_views(headers@) =~= seq![]);
    push_header(&mut headers, "content-type", String::from_str(content_type));
    assert(header_views(headers@) =~= seq![("content-type"@, content_type@)]);
    Response { status, headers, body }
}

impl Error {
    /// The answer to the error: status 500 and the error's message as text.
    pub fn into_response(self) -> (r: Response)
        ensures
            r@ == error_view(self),
    {
        typed_response(500, "text/plain; charset=utf-8", self.to_string())
    }
}

/// The response with the headers of its route's class and the content
/// security policy added behind its own.
pub fn with_policy(response: Response, class: RouteClass, csp: String) -> (r: Response)
    ensures
        r@ == secured(response@, class, csp@),
{
    let policy = route_policy(class);
    let Response { status, mut headers, body } = response;
    let ghost own = header_views(headers@);
    if policy.robots_noindex {
        push_header(&mut headers, "x-robots-tag", String::from_str("noindex"));
    }
    assert(header_views(headers@) =~= own + robots_headers(policy));
    match policy.cache_control {
        CacheControl::NoStore => {
            push_header(&mut headers, "cache-control", String::from_str("no-store, private"));
        },
        CacheControl::Immutable1Year => {
            push_header(
                &mut headers,
                "cache-control",
                String::from_str("public, max-age=31536000, immutable"),
            );
        },
        CacheControl::Default => {},
    }
    assert(header_views(headers@) =~= own + robots_headers(policy) + cache_headers(policy));
    if policy.cors_allow_all {
        push_header(&mut headers, "access-control-allow-origin", String::from_str("*"));
    }
    assert(header_views(headers@) =~= own + policy_headers(policy));
    let ghost c = csp@;
    push_header(&mut headers, "content-security-policy", csp);
    assert(header_views(headers@) =~= own + policy_headers(policy) + seq![
        ("content-security-policy"@, c),
    ]);
    Response { status, headers, body }
}

/// The address as a line of text.
pub fn raw(ip: &IpAddress) -> (r: Response)
    ensures
        r@ == typed(200, "text/plain; charset=utf-8"@, text_body(ip@)),
{
    let mut body = ip.to_string();
    body.append("\n");
    typed_response(200, "text/plain; charset=utf-8", body)
}

/// The address as a JSON object.
pub fn json(ip: &IpAddress) -> (r: Response)
    ensures
        r@ == typed(200, "application/json"@, json_body(ip@)),
{
    let mut body = String::from_str("{\"version\":");
    match ip.0 {
        IpAddr::V4(_) => body.append("4"),
        IpAddr::V6(_) => body.append("6"),
    }
    body.append(",\"address\":\"");
    body.append(ip.to_string().as_str());
    body.append("\"}");
    typed_response(200, "application/json", body)
}

/// The address in a representation.
pub fn represent(
    ip: &IpAddress,
    format: NegotiatedFormat,
    proto: &XForwardedProto,
    ctx: &SecurityContext,
    state: &AppState,
) -> (r: Response)
    ensures
        r@ == represented(format, state@, ip@, proto.0@, ctx.nonce_text()),
{
    match format {
        NegotiatedFormat::Html => {
            let page = IndexPage {
                root_dns_name: String::from_str(state.root_dns_name()),
                ip: ip.0,
                description: String::from_str(state.description()),
                proto: proto.0.clone(),
                nonce: String::from_str(ctx.nonce()),
                style: String::from_str(state.style()),
                script: String::from_str(state.script()),
            };
            assert(page@ == page_of(state@, ip@, proto.0@, ctx.nonce_text()));
            typed_response(200, "text/html; charset=utf-8", index(&page))
        },
        NegotiatedFormat::Json => json(ip),
        NegotiatedFormat::PlainText => raw(ip),
    }
}

/// The address in the representation that the request accepts.
pub fn home(
    ip: &IpAddress,
    proto: &XForwardedProto,
    ctx: &SecurityContext,
    accept: &Accept,
    state: &AppState,
) -> (r: Response)
    ensures
        r@ == represented(
            negotiated(Some(accept.0@)),
            state@,
            ip@,
            proto.0@,
            ctx.nonce_text(),
        ),
{
    represent(ip, negotiate(Some(accept.0.as_str())), proto, ctx, state)
}

/// The answer of `/robots.txt`: everything may be fetched.
pub fn robots() -> (r: Response)
    ensures
        r@ == robots_view(),
{
    typed_response(200, "text/plain; charset=utf-8", String::from_str("User-Agent: *\nAllow: /"))
}

/// The answer of `/humans.txt`.
pub fn humans(state: &AppState) -> (r: Response)
    ensures
        r@ == humans_view(state@),
{
    typed_response(200, "text/plain; charset=utf-8", String::from_str(state.humans()))
}

/// The answer to a path that is no route.
pub fn not_found(ctx: &SecurityContext, state: &AppState) -> (r: Response)
    ensures
        r@ == not_found_view(state@, ctx.nonce_text()),
{
    let page = NotFoundPage {
        nonce: String::from_str(ctx.nonce()),
        style: String::from_str(state.style()),
    };
    assert(page@ == NotFoundPageView { nonce: ctx.nonce_text(), style: state@.style });
    typed_response(404, "text/html; charset=utf-8", crate::pages::not_found(&page))
}

/// The header value of the content security policy of a request.
pub fn csp_header(state: &AppState, ctx: &SecurityContext) -> (csp: String)
    ensures
        csp@ == site_csp(state@.root_dns_name, ctx.nonce_text()),
{
    let root = state.root_dns_name();
    let nonce = ctx.nonce();
    proof {
        lemma_site_csp_header_text(root@, nonce@);
    }
    match csp_value(root, ctx) {
        Some(text) => text,
        None => vstd::pervasive::unreached(),
    }
}

/// The response for a client's address in a representation, with the headers
/// of the route's class and the content security policy.
pub fn build(
    identity: &ClientIdentity,
    format: NegotiatedFormat,
    ctx: &SecurityContext,
    class: RouteClass,
    proto: &XForwardedProto,
    state: &AppState,
) -> (r: Response)
    ensures
        r@ == secured(
            represented(format, state@, identity@.address, proto.0@, ctx.nonce_text()),
            class,
            site_csp(state@.root_dns_name, ctx.nonce_text()),
        ),
{
    let bare = represent(&IpAddress(identity.address), format, proto, ctx, state);
    with_policy(bare, class, csp_header(state, ctx))
}

} // verus!
