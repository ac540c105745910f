//! What holds of every request and every response.

use vstd::prelude::*;
use axum::http::{HeaderMap, HeaderValue};
use crate::addr::{ip_text, Addr};
use crate::canonical::lemma_canonical_text;
use crate::csp::{
    nonce_source, site_connect_src, site_csp, site_default_src, site_img_src, site_script_src,
    site_style_src, spaced,
};
use crate::error::Error;
use crate::grammar::is_ip_text;
use crate::headers::header_value;
use crate::identity::{address_of, extracted, resolved, ClientIdentityView, Source};
use crate::pages::{
    index_body, index_head, index_head_close, index_head_open, index_html, is_markup_char,
    lemma_escaped_plain, not_found_html, script_element, script_open, style_element, style_open,
    IndexPageView, NotFoundPageView,
};
use crate::reading::{lemma_ip_text_unique, lemma_ip_text_visible};
use crate::headers::{Accept, XForwardedProto};
use crate::negotiate::{negotiated, NegotiatedFormat};
use crate::response::{
    page_of, policy_headers, policy_of, robots_text, text_body, ResponseView,
};
use crate::router::{answer, bare_answer, class_of, route_of, takes, Method, Route};
use crate::security::{all_alphanumeric, is_alphanumeric};
use crate::state::AppStateView;
use crate::text::{
    chars_of, lemma_occurs_in_back, lemma_occurs_in_front, lemma_occurs_in_part,
    lemma_occurs_in_self, occurs_in,
};

verus! {

/// A trusted header that carries the text of an address gives that address,
/// whatever the peer address is.
pub proof fn lemma_address_text_resolves(
    name: Seq<char>,
    headers: HeaderMap<HeaderValue>,
    peer: Addr,
    text: Seq<u8>,
    addr: Addr,
)
    requires
        header_value(headers, name) == Some(text),
        is_ip_text(text, addr),
    ensures
        resolved(Some(name), headers, peer) == Ok::<ClientIdentityView, Error>(
            ClientIdentityView { address: addr, source: Source::TrustedHeader },
        ),
{
    lemma_ip_text_visible(text, addr);
    lemma_ip_text_unique(text, addr, address_of(text).unwrap());
}

/// A trusted header that carries the canonical text of an address gives that
/// address, and the text that is answered is the text that was sent.
pub proof fn lemma_canonical_text_comes_back(
    name: Seq<char>,
    headers: HeaderMap<HeaderValue>,
    peer: Addr,
    addr: Addr,
)
    requires
        addr.wf(),
        header_value(headers, name) == Some(ip_text(addr)),
    ensures
        resolved(Some(name), headers, peer) matches Ok(identity) && text_body(identity.address)
            == chars_of(header_value(headers, name).unwrap()) + "\n"@,
{
    lemma_canonical_text(addr);
    lemma_address_text_resolves(name, headers, peer, ip_text(addr), addr);
}

/// With a known peer address, the address of a request is that of its
/// identity; and where a header is trusted, the peer address plays no part.
pub proof fn lemma_address_is_that_of_the_identity(
    trusted: Option<Seq<char>>,
    headers: HeaderMap<HeaderValue>,
    peer: Addr,
    other: Option<Addr>,
)
    ensures
        match resolved(trusted, headers, peer) {
            Ok(identity) => extracted(trusted, headers, Some(peer)) == Ok::<Addr, Error>(
                identity.address,
            ),
            Err(e) => extracted(trusted, headers, Some(peer)) == Err::<Addr, Error>(e),
        },
        trusted is Some ==> extracted(trusted, headers, other) == extracted(
            trusted,
            headers,
            Some(peer),
        ),
{
}

/// Where a header is trusted and the request does not carry it, there is no
/// identity, whatever the peer address is.
pub proof fn lemma_missing_header_fails(
    name: Seq<char>,
    headers: HeaderMap<HeaderValue>,
    peer: Addr,
)
    requires
        header_value(headers, name) is None,
    ensures
        resolved(Some(name), headers, peer) == Err::<ClientIdentityView, Error>(Error::NoHeader),
{
}

/// The policy of every request names the request's nonce.
pub proof fn lemma_policy_names_nonce(root: Seq<char>, nonce: Seq<char>)
    ensures
        occurs_in(nonce_source(nonce), site_csp(root, nonce)),
{
    let source = nonce_source(nonce);
    lemma_occurs_in_self(source);
    lemma_occurs_in_back(source, seq![' '], source);
    lemma_occurs_in_part(source, "style-src"@, spaced(source), seq![';']);
    lemma_occurs_in_part(
        source,
        site_default_src() + site_connect_src(root) + site_img_src() + site_script_src(nonce),
        site_style_src(nonce),
        crate::csp::site_base_uri(),
    );
}

/// The address page opens its stylesheet and its script with the page's nonce.
pub proof fn lemma_index_page_nonce(page: IndexPageView)
    ensures
        occurs_in(style_open(page.nonce), index_html(page)),
        occurs_in(script_open(page.nonce), index_html(page)),
{
    let style = style_open(page.nonce);
    let script = script_open(page.nonce);
    let doctype = "<!DOCTYPE html><html lang=\"en\">"@;
    lemma_occurs_in_self(style);
    lemma_occurs_in_front(style, style, page.style);
    lemma_occurs_in_front(style, style + page.style, "</style>"@);
    lemma_occurs_in_part(
        style,
        index_head_open(page),
        style_element(page.nonce, page.style),
        index_head_close(page),
    );
    lemma_occurs_in_part(style, doctype, index_head(page), index_body(page.ip));
    lemma_occurs_in_front(
        style,
        doctype + index_head(page) + index_body(page.ip),
        script_element(page.nonce, page.script),
    );
    lemma_occurs_in_front(
        style,
        doctype + index_head(page) + index_body(page.ip) + script_element(
            page.nonce,
            page.script,
        ),
        "</html>"@,
    );
    lemma_occurs_in_self(script);
    lemma_occurs_in_front(script, script, page.script);
    lemma_occurs_in_front(script, script + page.script, "</script>"@);
    lemma_occurs_in_part(
        script,
        doctype + index_head(page) + index_body(page.ip),
        script_element(page.nonce, page.script),
        "</html>"@,
    );
}

/// The "not found" page opens its stylesheet with the page's nonce.
pub proof fn lemma_not_found_page_nonce(page: NotFoundPageView)
    ensures
        occurs_in(style_open(page.nonce), not_found_html(page)),
{
    let style = style_open(page.nonce);
    lemma_occurs_in_self(style);
    lemma_occurs_in_front(style, style, page.style);
    lemma_occurs_in_front(style, style + page.style, "</style>"@);
    lemma_occurs_in_part(
        style,
        "<!DOCTYPE html><html lang=\"en\"><head><meta charset=\"UTF-8\"><meta name=\"viewport\" content=\"width=device-width, initial-scale=1\"><meta name=\"robots\" content=\"noindex\"><meta name=\"description\" content=\"How did we get here? This website only has a root page.\"><title>404 Not Found</title>"@,
        style_element(page.nonce, page.style),
        "</head><body><div class=\"stack\"><span>404 not found</span><a class=\"home\" href=\"/\">Go home?</a></div></body></html>"@,
    );
}

/// The response is an HTML page.
pub open spec fn is_html(response: ResponseView) -> bool {
    response.headers.len() > 0 && response.headers[0] == ("content-type"@, "text/html; charset=utf-8"@)
}

/// In the answer to a request, the last header is the content security
/// policy and names the request's nonce; and where the answer is an HTML page,
/// the page opens its stylesheet with that same nonce.
pub proof fn lemma_one_nonce(
    state: AppStateView,
    nonce: Seq<char>,
    method: Method,
    path: Seq<char>,
    headers: HeaderMap<HeaderValue>,
    peer: Option<Addr>,
)
    requires
        all_alphanumeric(nonce),
    ensures
        ({
            let response = answer(state, nonce, method, path, headers, peer);
            &&& response.headers.last().0 == "content-security-policy"@
            &&& occurs_in("'nonce-"@ + nonce + "'"@, response.headers.last().1)
            &&& is_html(response) ==> occurs_in(
                "<style nonce=\""@ + nonce + "\">"@,
                response.body,
            )
        }),
{
    let response = answer(state, nonce, method, path, headers, peer);
    let route = route_of(path);
    let bare = bare_answer(state, nonce, method, route, headers, peer);
    let csp = site_csp(state.root_dns_name, nonce);
    lemma_policy_names_nonce(state.root_dns_name, nonce);
    assert(response.headers.last() == ("content-security-policy"@, csp));
    assert forall|i: int| 0 <= i < nonce.len() implies !is_markup_char(#[trigger] nonce[i]) by {
        assert(is_alphanumeric(nonce[i]));
    }
    lemma_escaped_plain(nonce);
    assert(bare.headers.len() == 1);
    assert(response.headers[0] == bare.headers[0]);
    if is_html(response) {
        reveal_strlit("content-type");
        reveal_strlit("allow");
        reveal_strlit("text/html; charset=utf-8");
        reveal_strlit("text/plain; charset=utf-8");
        reveal_strlit("application/json");
        assert("content-type"@.len() == 12 && "allow"@.len() == 5);
        assert("text/html; charset=utf-8"@.len() == 24 && "text/plain; charset=utf-8"@.len() == 25
            && "application/json"@.len() == 16);
        assert(takes(route, method));
        if route == Route::NotFound {
            lemma_not_found_page_nonce(NotFoundPageView { nonce, style: state.style });
        } else {
            assert(route == Route::Home);
            let addr = extracted(state.header, headers, peer);
            assert(addr is Ok);
            let format = negotiated(Some(Accept::of(headers)));
            assert(format == NegotiatedFormat::Html);
            lemma_index_page_nonce(
                page_of(state, addr->Ok_0, XForwardedProto::of(headers), nonce),
            );
        }
    }
}

/// `/robots.txt` is answered with the same text whatever the request accepts
/// and whatever header is trusted.
pub proof fn lemma_robots_is_fixed(
    state: AppStateView,
    nonce: Seq<char>,
    method: Method,
    headers: HeaderMap<HeaderValue>,
    peer: Option<Addr>,
)
    requires
        method != Method::Other,
    ensures
        answer(state, nonce, method, "/robots.txt"@, headers, peer).status == 200,
        answer(state, nonce, method, "/robots.txt"@, headers, peer).body == robots_text(),
{
    reveal_strlit("/robots.txt");
    reveal_strlit("/");
    reveal_strlit("/raw");
    reveal_strlit("/json");
    assert("/robots.txt"@.len() == 11 && "/"@.len() == 1 && "/raw"@.len() == 4 && "/json"@.len()
        == 5);
    assert(route_of("/robots.txt"@) == Route::Robots);
}

/// A value that names `text/html` gets HTML, wherever it names it and whatever
/// else it holds.
pub proof fn lemma_html_comes_first(before: Seq<char>, after: Seq<char>)
    ensures
        negotiated(Some(before + "text/html"@ + after)) == NegotiatedFormat::Html,
{
    lemma_occurs_in_self("text/html"@);
    lemma_occurs_in_part("text/html"@, before, "text/html"@, after);
}

/// The address page shows the text of its address.
pub proof fn lemma_index_page_shows_address(page: IndexPageView)
    ensures
        occurs_in(chars_of(ip_text(page.ip)), index_html(page)),
{
    let text = chars_of(ip_text(page.ip));
    let doctype = "<!DOCTYPE html><html lang=\"en\">"@;
    lemma_occurs_in_self(text);
    match page.ip {
        Addr::V4(_) => {
            lemma_occurs_in_part(
                text,
                "<body><div class=\"stack\"><span>Your public IPv4 is <code>"@,
                text,
                "</code></span><span id=\"unfilled-ip-container\" hidden>Your public IPv6 is <code id=\"unfilled-ip-code\">(fetching)</code></span></div></body>"@,
            );
        },
        Addr::V6(_) => {
            lemma_occurs_in_part(
                text,
                "<body><div class=\"stack\"><span id=\"unfilled-ip-container\" hidden>Your public IPv4 is <code id=\"unfilled-ip-code\">(fetching)</code></span><span>Your public IPv6 is <code>"@,
                text,
                "</code></span></div></body>"@,
            );
        },
    }
    lemma_occurs_in_part(
        text,
        doctype + index_head(page),
        index_body(page.ip),
        script_element(page.nonce, page.script),
    );
    lemma_occurs_in_front(
        text,
        doctype + index_head(page) + index_body(page.ip) + script_element(
            page.nonce,
            page.script,
        ),
        "</html>"@,
    );
}

/// No answer may be indexed, and none may be kept: every answer carries
/// `x-robots-tag: noindex` and `cache-control: no-store, private`.
pub proof fn lemma_no_answer_is_indexed_or_kept(
    state: AppStateView,
    nonce: Seq<char>,
    method: Method,
    path: Seq<char>,
    headers: HeaderMap<HeaderValue>,
    peer: Option<Addr>,
)
    ensures
        ({
            let response = answer(state, nonce, method, path, headers, peer);
            &&& response.headers.len() >= 4
            &&& response.headers[1] == ("x-robots-tag"@, "noindex"@)
            &&& response.headers[2] == ("cache-control"@, "no-store, private"@)
        }),
{
    let route = route_of(path);
    let bare = bare_answer(state, nonce, method, route, headers, peer);
    assert(bare.headers.len() == 1);
    let policy = policy_of(class_of(route));
    assert(policy_headers(policy)[0] == ("x-robots-tag"@, "noindex"@));
    assert(policy_headers(policy)[1] == ("cache-control"@, "no-store, private"@));
}

/// Only the two address APIs may be read from other origins: an answer
/// carries `access-control-allow-origin: *` exactly on `/raw` and `/json`.
pub proof fn lemma_only_the_apis_are_shared(
    state: AppStateView,
    nonce: Seq<char>,
    method: Method,
    path: Seq<char>,
    headers: HeaderMap<HeaderValue>,
    peer: Option<Addr>,
)
    ensures
        ({
            let response = answer(state, nonce, method, path, headers, peer);
            let shared = route_of(path) == Route::Raw || route_of(path) == Route::Json;
            response.headers.len() == if shared {
                5int
            } else {
                4int
            } && (shared ==> response.headers[3] == ("access-control-allow-origin"@, "*"@))
        }),
{
    let route = route_of(path);
    let bare = bare_answer(state, nonce, method, route, headers, peer);
    assert(bare.headers.len() == 1);
    let policy = policy_of(class_of(route));
    if policy.cors_allow_all {
        assert(policy_headers(policy)[2] == ("access-control-allow-origin"@, "*"@));
    }
}

} // verus!
