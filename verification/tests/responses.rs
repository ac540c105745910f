use axum::http::{HeaderMap, HeaderName, HeaderValue};
use myip::addr::{IpAddr, IpAddress};
use myip::error::Error;
use myip::headers::{Accept, XForwardedProto};
use myip::identity::{ClientIdentity, Source};
use myip::negotiate::NegotiatedFormat;
use myip::response::{
    build, csp_header, home, humans, json, not_found, raw, robots, route_policy, with_policy,
    CacheControl, HeaderPolicy, Response, RouteClass,
};
use myip::router::{respond, route, route_class, Method, Route};
use myip::security::SecurityContext;
use myip::state::{AppState, Assets};

const NONCE: &str = "abcdefghijklmnopqrstuvwxyz012345";
const ADDR: IpAddr = IpAddr::V4([203, 0, 113, 5]);
const PEER: Option<IpAddr> = Some(ADDR);
const CSP: &str = "default-src 'none';connect-src v4.ip.example v6.ip.example cloudflareinsights.com;img-src 'self';script-src 'nonce-abcdefghijklmnopqrstuvwxyz012345' 'unsafe-inline' 'strict-dynamic' https:;style-src 'nonce-abcdefghijklmnopqrstuvwxyz012345';base-uri 'none';";

fn state(header: Option<&str>) -> AppState {
    let assets = Assets {
        style: "body{margin:0}".to_string(),
        script: "load()".to_string(),
        humans: "Made by people.\n".to_string(),
    };
    AppState::new(header.map(str::to_string), "ip.example".to_string(), None, assets).unwrap()
}

fn ctx() -> SecurityContext {
    SecurityContext::new(NONCE.to_string()).unwrap()
}

fn with(name: &'static str, value: &'static str) -> HeaderMap {
    let mut headers = HeaderMap::new();
    headers.insert(HeaderName::from_static(name), HeaderValue::from_static(value));
    headers
}

fn header<'a>(response: &'a Response, name: &str) -> Option<&'a str> {
    let mut found = response.headers.iter().filter(|(n, _)| n == name);
    let first = found.next().map(|(_, v)| v.as_str());
    assert!(found.next().is_none(), "{} is set twice", name);
    first
}

fn names(response: &Response) -> Vec<&str> {
    response.headers.iter().map(|(n, _)| n.as_str()).collect()
}

#[test]
fn the_home_page_shows_the_peer_under_the_nonce_of_the_policy() {
    let headers = with("accept", "text/html");
    let got = respond(&state(None), &ctx(), Method::Get, "/", &headers, PEER);
    assert_eq!(got.status, 200);
    assert_eq!(header(&got, "content-type"), Some("text/html; charset=utf-8"));
    assert!(got.body.contains("203.0.113.5"));
    let csp = header(&got, "content-security-policy").unwrap();
    assert_eq!(csp, CSP);
    assert!(csp.contains("'nonce-abcdefghijklmnopqrstuvwxyz012345'"));
    assert!(got.body.contains("<style nonce=\"abcdefghijklmnopqrstuvwxyz012345\">"));
    assert!(got.body.contains("<script nonce=\"abcdefghijklmnopqrstuvwxyz012345\">"));
    assert_eq!(header(&got, "x-robots-tag"), Some("noindex"));
    assert_eq!(header(&got, "cache-control"), Some("no-store, private"));
    assert_eq!(header(&got, "access-control-allow-origin"), None);
}

#[test]
fn every_nonce_in_the_page_is_the_nonce_of_the_policy() {
    let headers = with("accept", "text/html");
    let fresh = SecurityContext::generate();
    let got = respond(&state(None), &fresh, Method::Get, "/", &headers, PEER);
    let csp = header(&got, "content-security-policy").unwrap();
    assert!(csp.contains(&format!("'nonce-{}'", fresh.nonce())));
    let mut rest = got.body.as_str();
    let mut count = 0;
    while let Some(at) = rest.find("nonce=\"") {
        let value = &rest[at + 7..];
        let end = value.find('"').unwrap();
        assert_eq!(&value[..end], fresh.nonce());
        rest = &value[end..];
        count += 1;
    }
    assert_eq!(count, 3);
}

#[test]
fn raw_answers_the_trusted_header_as_text_for_every_origin() {
    let headers = with("x-real-ip", "2001:db8::1");
    let got = respond(&state(Some("X-Real-IP")), &ctx(), Method::Get, "/raw", &headers, PEER);
    assert_eq!(got.status, 200);
    assert_eq!(got.body, "2001:db8::1\n");
    assert_eq!(header(&got, "access-control-allow-origin"), Some("*"));
    assert_eq!(header(&got, "content-type"), Some("text/plain; charset=utf-8"));
    assert_eq!(header(&got, "cache-control"), Some("no-store, private"));
    assert_eq!(header(&got, "x-robots-tag"), Some("noindex"));
    assert_eq!(header(&got, "content-security-policy"), Some(CSP));
}

#[test]
fn raw_takes_every_method() {
    for method in [Method::Get, Method::Head, Method::Other] {
        let got = respond(&state(None), &ctx(), method, "/raw", &HeaderMap::new(), PEER);
        assert_eq!(got.status, 200);
        assert_eq!(got.body, "203.0.113.5\n");
    }
}

#[test]
fn raw_without_the_trusted_header_is_an_error() {
    let got = respond(&state(Some("X-Real-IP")), &ctx(), Method::Get, "/raw", &HeaderMap::new(), PEER);
    assert_eq!(got.status, 500);
    assert_eq!(got.body, "No header found");
    assert_eq!(header(&got, "content-type"), Some("text/plain; charset=utf-8"));
    assert_eq!(header(&got, "access-control-allow-origin"), Some("*"));
    assert_eq!(header(&got, "content-security-policy"), Some(CSP));
}

#[test]
fn a_bad_trusted_header_is_an_error_on_every_address_route() {
    let trusting = state(Some("X-Real-IP"));
    for path in ["/", "/raw", "/json"] {
        let got = respond(&trusting, &ctx(), Method::Get, path, &with("x-real-ip", "nobody"), PEER);
        assert_eq!(got.status, 500, "{}", path);
        assert_eq!(
            got.body,
            "Could not convert supplied header to IP address (this is a configuration issue)"
        );
    }
    let mut headers = HeaderMap::new();
    headers.insert(HeaderName::from_static("x-real-ip"), HeaderValue::from_bytes(b"\xff").unwrap());
    let got = respond(&trusting, &ctx(), Method::Get, "/", &headers, PEER);
    assert_eq!(got.status, 500);
    assert_eq!(
        got.body,
        "Could not convert supplied header to string (this is a configuration issue)"
    );
}

#[test]
fn json_answers_the_peer_with_its_version() {
    let got = respond(&state(None), &ctx(), Method::Get, "/json", &HeaderMap::new(), PEER);
    assert_eq!(got.status, 200);
    assert_eq!(got.body, "{\"version\":4,\"address\":\"203.0.113.5\"}");
    assert_eq!(header(&got, "content-type"), Some("application/json"));
    assert_eq!(header(&got, "access-control-allow-origin"), Some("*"));
    let six = IpAddr::V6([0x2001, 0xdb8, 0, 0, 0, 0, 0, 1]);
    let got = respond(&state(None), &ctx(), Method::Get, "/json", &with("accept", "text/html"), Some(six));
    assert_eq!(got.body, "{\"version\":6,\"address\":\"2001:db8::1\"}");
}

#[test]
fn an_unknown_path_gets_the_not_found_page() {
    let got = respond(&state(None), &ctx(), Method::Get, "/unknown-path", &HeaderMap::new(), PEER);
    assert_eq!(got.status, 404);
    assert_eq!(header(&got, "x-robots-tag"), Some("noindex"));
    assert_eq!(header(&got, "content-type"), Some("text/html; charset=utf-8"));
    assert!(header(&got, "content-security-policy").unwrap().contains(NONCE));
    assert!(got.body.contains("<style nonce=\"abcdefghijklmnopqrstuvwxyz012345\">"));
    assert!(got.body.contains("404 not found"));
    assert_eq!(header(&got, "access-control-allow-origin"), None);
    for path in ["", "/raw/", "/Raw", "/json?x", "//", "/index.html", "raw"] {
        let got = respond(&state(None), &ctx(), Method::Other, path, &HeaderMap::new(), PEER);
        assert_eq!(got.status, 404, "{}", path);
    }
}

#[test]
fn robots_is_the_same_whatever_is_accepted_or_trusted() {
    for trusted in [None, Some("X-Real-IP")] {
        for accept in ["text/html", "application/json", "*/*"] {
            for method in [Method::Get, Method::Head] {
                let got =
                    respond(&state(trusted), &ctx(), method, "/robots.txt", &with("accept", accept), PEER);
                assert_eq!(got.status, 200);
                assert_eq!(got.body, "User-Agent: *\nAllow: /");
                assert_eq!(header(&got, "content-type"), Some("text/plain; charset=utf-8"));
            }
        }
    }
    assert_eq!(robots().body, "User-Agent: *\nAllow: /");
}

#[test]
fn humans_is_the_text_of_the_deployment() {
    let got = respond(&state(Some("X-Real-IP")), &ctx(), Method::Get, "/humans.txt", &HeaderMap::new(), PEER);
    assert_eq!(got.status, 200);
    assert_eq!(got.body, "Made by people.\n");
    assert_eq!(humans(&state(None)).body, "Made by people.\n");
}

#[test]
fn other_methods_are_not_allowed_where_only_get_is() {
    for path in ["/", "/json", "/robots.txt", "/humans.txt"] {
        let got = respond(&state(None), &ctx(), Method::Other, path, &HeaderMap::new(), PEER);
        assert_eq!(got.status, 405, "{}", path);
        assert_eq!(header(&got, "allow"), Some("GET,HEAD"));
        assert_eq!(got.body, "");
        assert_eq!(header(&got, "content-security-policy"), Some(CSP));
        let got = respond(&state(None), &ctx(), Method::Head, path, &HeaderMap::new(), PEER);
        assert_eq!(got.status, 200, "{}", path);
    }
}

#[test]
fn home_is_negotiated() {
    let plain = respond(&state(None), &ctx(), Method::Get, "/", &HeaderMap::new(), PEER);
    assert_eq!(plain.body, "203.0.113.5\n");
    assert_eq!(header(&plain, "content-type"), Some("text/plain; charset=utf-8"));
    assert_eq!(header(&plain, "access-control-allow-origin"), None);
    let json = respond(&state(None), &ctx(), Method::Get, "/", &with("accept", "application/json"), PEER);
    assert_eq!(json.body, "{\"version\":4,\"address\":\"203.0.113.5\"}");
    assert_eq!(header(&json, "content-type"), Some("application/json"));
    let html =
        respond(&state(None), &ctx(), Method::Get, "/", &with("accept", "application/json, text/html;q=0.1"), PEER);
    assert!(html.body.starts_with("<!DOCTYPE html>"));
}

#[test]
fn the_page_uses_the_scheme_that_the_proxy_reports() {
    let mut headers = with("accept", "text/html");
    headers.insert(HeaderName::from_static("x-forwarded-proto"), HeaderValue::from_static("https"));
    let got = respond(&state(None), &ctx(), Method::Get, "/", &headers, PEER);
    assert!(got.body.contains("data-endpoint=\"https://v6.ip.example/raw\""));
    let got = respond(&state(None), &ctx(), Method::Get, "/", &with("accept", "text/html"), PEER);
    assert!(got.body.contains("data-endpoint=\"http://v6.ip.example/raw\""));
}

#[test]
fn headers_come_in_a_fixed_order() {
    let got = respond(&state(None), &ctx(), Method::Get, "/raw", &HeaderMap::new(), PEER);
    assert_eq!(
        names(&got),
        vec![
            "content-type",
            "x-robots-tag",
            "cache-control",
            "access-control-allow-origin",
            "content-security-policy"
        ]
    );
    let got = respond(&state(None), &ctx(), Method::Get, "/", &HeaderMap::new(), PEER);
    assert_eq!(
        names(&got),
        vec!["content-type", "x-robots-tag", "cache-control", "content-security-policy"]
    );
}

#[test]
fn the_policy_table() {
    let no_store = |cors| HeaderPolicy {
        robots_noindex: true,
        cache_control: CacheControl::NoStore,
        cors_allow_all: cors,
    };
    assert_eq!(route_policy(RouteClass::PrimaryPage), no_store(false));
    assert_eq!(route_policy(RouteClass::RawApi), no_store(true));
    assert_eq!(route_policy(RouteClass::JsonApi), no_store(true));
    assert_eq!(route_policy(RouteClass::NotFound), no_store(false));
    assert_eq!(
        route_policy(RouteClass::StaticAsset),
        HeaderPolicy {
            robots_noindex: true,
            cache_control: CacheControl::Immutable1Year,
            cors_allow_all: false
        }
    );
}

#[test]
fn a_static_asset_may_be_kept_for_a_year() {
    let bare = Response { status: 200, headers: Vec::new(), body: "x".to_string() };
    let got = with_policy(bare, RouteClass::StaticAsset, "csp".to_string());
    assert_eq!(header(&got, "cache-control"), Some("public, max-age=31536000, immutable"));
    assert_eq!(header(&got, "x-robots-tag"), Some("noindex"));
    assert_eq!(header(&got, "content-security-policy"), Some("csp"));
    assert_eq!(got.body, "x");
    assert_eq!(got.status, 200);
}

#[test]
fn paths_lead_to_routes_and_routes_to_classes() {
    assert_eq!(route("/"), Route::Home);
    assert_eq!(route("/raw"), Route::Raw);
    assert_eq!(route("/json"), Route::Json);
    assert_eq!(route("/robots.txt"), Route::Robots);
    assert_eq!(route("/humans.txt"), Route::Humans);
    assert_eq!(route("/else"), Route::NotFound);
    assert_eq!(route_class(Route::Home), RouteClass::PrimaryPage);
    assert_eq!(route_class(Route::Raw), RouteClass::RawApi);
    assert_eq!(route_class(Route::Json), RouteClass::JsonApi);
    assert_eq!(route_class(Route::Robots), RouteClass::PrimaryPage);
    assert_eq!(route_class(Route::Humans), RouteClass::PrimaryPage);
    assert_eq!(route_class(Route::NotFound), RouteClass::NotFound);
}

#[test]
fn every_error_is_answered_with_its_message() {
    let cases = [
        (Error::NoHeader, "No header found"),
        (Error::ConnectInfo, "Could not extract connection info"),
        (Error::NoNonce, "Could not get CSP nonce"),
        (
            Error::ToStr,
            "Could not convert supplied header to string (this is a configuration issue)",
        ),
        (
            Error::ToAddr,
            "Could not convert supplied header to IP address (this is a configuration issue)",
        ),
    ];
    for (error, message) in cases {
        assert_eq!(error.message(), message);
        assert_eq!(error.to_string(), message);
        let got = error.into_response();
        assert_eq!(got.status, 500);
        assert_eq!(got.body, message);
        assert_eq!(
            got.headers,
            vec![("content-type".to_string(), "text/plain; charset=utf-8".to_string())]
        );
    }
}

#[test]
fn the_handlers_answer_without_the_headers_of_their_class() {
    let ip = IpAddress(ADDR);
    assert_eq!(raw(&ip).body, "203.0.113.5\n");
    assert_eq!(names(&raw(&ip)), vec!["content-type"]);
    assert_eq!(json(&ip).body, "{\"version\":4,\"address\":\"203.0.113.5\"}");
    let page = not_found(&ctx(), &state(None));
    assert_eq!(page.status, 404);
    assert_eq!(names(&page), vec!["content-type"]);
    let proto = XForwardedProto("https".to_string());
    let got = home(&ip, &proto, &ctx(), &Accept("text/html".to_string()), &state(None));
    assert!(got.body.contains("<code>203.0.113.5</code>"));
    assert!(got.body.contains("content=\"IP address return API and site\""));
    let got = home(&ip, &proto, &ctx(), &Accept(String::new()), &state(None));
    assert_eq!(got.body, "203.0.113.5\n");
}

#[test]
fn a_response_is_built_for_an_identity_a_format_and_a_class() {
    let identity = ClientIdentity { address: ADDR, source: Source::TransportPeer };
    let proto = XForwardedProto("http".to_string());
    let got = build(&identity, NegotiatedFormat::Json, &ctx(), RouteClass::JsonApi, &proto, &state(None));
    assert_eq!(got.status, 200);
    assert_eq!(got.body, "{\"version\":4,\"address\":\"203.0.113.5\"}");
    assert_eq!(
        got.headers,
        vec![
            ("content-type".to_string(), "application/json".to_string()),
            ("x-robots-tag".to_string(), "noindex".to_string()),
            ("cache-control".to_string(), "no-store, private".to_string()),
            ("access-control-allow-origin".to_string(), "*".to_string()),
            ("content-security-policy".to_string(), CSP.to_string()),
        ]
    );
    let got =
        build(&identity, NegotiatedFormat::PlainText, &ctx(), RouteClass::PrimaryPage, &proto, &state(None));
    assert_eq!(got.body, "203.0.113.5\n");
    assert_eq!(header(&got, "access-control-allow-origin"), None);
    let got = build(&identity, NegotiatedFormat::Html, &ctx(), RouteClass::PrimaryPage, &proto, &state(None));
    assert_eq!(header(&got, "content-type"), Some("text/html; charset=utf-8"));
    assert!(got.body.contains("<code>203.0.113.5</code>"));
}

#[test]
fn the_policy_header_is_that_of_the_root_and_the_nonce() {
    assert_eq!(csp_header(&state(None), &ctx()), CSP);
}

#[test]
fn an_unknown_peer_is_an_error_where_no_header_is_trusted() {
    for path in ["/", "/raw", "/json"] {
        let got = respond(&state(None), &ctx(), Method::Get, path, &HeaderMap::new(), None);
        assert_eq!(got.status, 500, "{}", path);
        assert_eq!(got.body, "Could not extract connection info");
        assert_eq!(header(&got, "content-security-policy"), Some(CSP));
    }
    for path in ["/robots.txt", "/humans.txt"] {
        let got = respond(&state(None), &ctx(), Method::Get, path, &HeaderMap::new(), None);
        assert_eq!(got.status, 200, "{}", path);
    }
    let got = respond(&state(None), &ctx(), Method::Get, "/nowhere", &HeaderMap::new(), None);
    assert_eq!(got.status, 404);
}

#[test]
fn an_unknown_peer_is_not_missed_where_a_header_is_trusted() {
    let headers = with("x-real-ip", "198.51.100.7");
    let got = respond(&state(Some("X-Real-IP")), &ctx(), Method::Get, "/raw", &headers, None);
    assert_eq!(got.status, 200);
    assert_eq!(got.body, "198.51.100.7\n");
}
