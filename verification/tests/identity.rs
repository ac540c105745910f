use axum::http::{HeaderMap, HeaderName, HeaderValue};
use myip::addr::{IpAddr, IpAddress};
use myip::error::Error;
use myip::headers::{header_text, Accept, XForwardedProto};
use myip::identity::{identify, identify_by, resolve, ClientIdentity, Source};
use myip::state::{AppState, Assets};

fn assets() -> Assets {
    Assets { style: String::new(), script: String::new(), humans: String::new() }
}

fn state(header: Option<&str>) -> AppState {
    AppState::new(header.map(str::to_string), "ip.example".to_string(), None, assets()).unwrap()
}

fn with(name: &'static str, value: &'static str) -> HeaderMap {
    let mut headers = HeaderMap::new();
    headers.insert(HeaderName::from_static(name), HeaderValue::from_static(value));
    headers
}

const PEER: IpAddr = IpAddr::V4([203, 0, 113, 5]);

#[test]
fn the_peer_is_the_client_where_no_header_is_trusted() {
    let got = resolve(&with("x-real-ip", "2001:db8::1"), PEER, &state(None));
    assert_eq!(got, Ok(ClientIdentity { address: PEER, source: Source::TransportPeer }));
    let got = resolve(&HeaderMap::new(), PEER, &state(None));
    assert_eq!(got, Ok(ClientIdentity { address: PEER, source: Source::TransportPeer }));
}

#[test]
fn the_trusted_header_names_the_client() {
    let got = resolve(&with("x-real-ip", "2001:db8::1"), PEER, &state(Some("X-Real-IP")));
    let address = IpAddr::V6([0x2001, 0xdb8, 0, 0, 0, 0, 0, 1]);
    assert_eq!(got, Ok(ClientIdentity { address, source: Source::TrustedHeader }));
    let got = resolve(&with("x-real-ip", "198.51.100.7"), PEER, &state(Some("x-real-ip")));
    let address = IpAddr::V4([198, 51, 100, 7]);
    assert_eq!(got, Ok(ClientIdentity { address, source: Source::TrustedHeader }));
}

#[test]
fn every_way_of_writing_an_address_names_it() {
    let address = IpAddr::V6([0x2001, 0xdb8, 0, 0, 0, 0, 0, 1]);
    for text in ["2001:db8::1", "2001:DB8::1", "2001:0db8:0:0:0:0:0:1", "2001:db8::0.0.0.1"] {
        let mut headers = HeaderMap::new();
        headers.insert(HeaderName::from_static("x-real-ip"), HeaderValue::from_str(text).unwrap());
        let got = resolve(&headers, PEER, &state(Some("X-Real-IP")));
        assert_eq!(got, Ok(ClientIdentity { address, source: Source::TrustedHeader }), "{}", text);
    }
}

#[test]
fn a_missing_trusted_header_is_an_error_whatever_the_peer() {
    let trusting = state(Some("X-Real-IP"));
    for peer in [PEER, IpAddr::V6([0; 8]), IpAddr::V4([127, 0, 0, 1])] {
        assert_eq!(resolve(&HeaderMap::new(), peer, &trusting), Err(Error::NoHeader));
        assert_eq!(resolve(&with("x-forwarded-for", "1.2.3.4"), peer, &trusting), Err(Error::NoHeader));
    }
}

#[test]
fn a_trusted_header_that_is_no_address_is_an_error() {
    let trusting = state(Some("X-Real-IP"));
    for text in ["", "localhost", "1.2.3.4, 5.6.7.8", "1.2.3.4:80", "[::1]", " ::1"] {
        let mut headers = HeaderMap::new();
        headers.insert(HeaderName::from_static("x-real-ip"), HeaderValue::from_str(text).unwrap());
        assert_eq!(resolve(&headers, PEER, &trusting), Err(Error::ToAddr), "{}", text);
    }
}

#[test]
fn a_trusted_header_that_is_no_text_is_an_error() {
    let mut headers = HeaderMap::new();
    headers
        .insert(HeaderName::from_static("x-real-ip"), HeaderValue::from_bytes(b"1.2.3.4\xff").unwrap());
    assert_eq!(resolve(&headers, PEER, &state(Some("X-Real-IP"))), Err(Error::ToStr));
}

#[test]
fn the_first_of_several_values_counts() {
    let mut headers = HeaderMap::new();
    headers.append(HeaderName::from_static("x-real-ip"), HeaderValue::from_static("192.0.2.1"));
    headers.append(HeaderName::from_static("x-real-ip"), HeaderValue::from_static("192.0.2.2"));
    let got = IpAddress::from_request_parts(&headers, Some(PEER), &state(Some("X-Real-IP")));
    assert_eq!(got, Ok(IpAddress(IpAddr::V4([192, 0, 2, 1]))));
}

#[test]
fn the_address_is_that_of_the_identity() {
    let headers = with("x-real-ip", "2001:db8::1");
    let got = IpAddress::from_request_parts(&headers, Some(PEER), &state(None));
    assert_eq!(got, Ok(IpAddress(PEER)));
    let got = IpAddress::from_request_parts(&HeaderMap::new(), Some(PEER), &state(Some("X-Real-IP")));
    assert_eq!(got, Err(Error::NoHeader));
    let got = IpAddress::from_request_parts(&headers, None, &state(Some("X-Real-IP")));
    assert_eq!(got, Ok(IpAddress(IpAddr::V6([0x2001, 0xdb8, 0, 0, 0, 0, 0, 1]))));
}

#[test]
fn an_unknown_peer_is_an_error_where_it_is_asked_for() {
    let got = IpAddress::from_request_parts(&HeaderMap::new(), None, &state(None));
    assert_eq!(got, Err(Error::ConnectInfo));
    let got = IpAddress::from_request_parts(&with("x-real-ip", "1.2.3.4"), None, &state(None));
    assert_eq!(got, Err(Error::ConnectInfo));
}

#[test]
fn a_header_value_is_judged_on_its_own() {
    assert_eq!(identify(None), Err(Error::NoHeader));
    assert_eq!(identify(Some(b"\x01")), Err(Error::ToStr));
    assert_eq!(identify(Some(b"::g")), Err(Error::ToAddr));
    assert_eq!(
        identify(Some(b"10.0.0.1")),
        Ok(ClientIdentity { address: IpAddr::V4([10, 0, 0, 1]), source: Source::TrustedHeader })
    );
}

#[test]
fn header_names_are_found_in_any_case() {
    let headers = with("x-forwarded-proto", "https");
    assert_eq!(header_text(&headers, "X-Forwarded-Proto"), Some("https".to_string()));
    assert_eq!(header_text(&headers, "x-forwarded-proto"), Some("https".to_string()));
    assert_eq!(header_text(&headers, "X-FORWARDED-PROTO"), Some("https".to_string()));
    assert_eq!(header_text(&headers, "x-forwarded-for"), None);
    assert_eq!(header_text(&headers, "no header name"), None);
    assert_eq!(header_text(&headers, ""), None);
}

#[test]
fn the_scheme_is_http_unless_the_proxy_says_otherwise() {
    assert_eq!(XForwardedProto::from_request_parts(&HeaderMap::new()).0, "http");
    assert_eq!(XForwardedProto::from_request_parts(&with("x-forwarded-proto", "https")).0, "https");
    let mut headers = HeaderMap::new();
    headers.insert(
        HeaderName::from_static("x-forwarded-proto"),
        HeaderValue::from_bytes(b"https\x80").unwrap(),
    );
    assert_eq!(XForwardedProto::from_request_parts(&headers).0, "http");
}

#[test]
fn what_is_accepted_is_empty_unless_the_request_says() {
    assert_eq!(Accept::from_request_parts(&HeaderMap::new()).0, "");
    assert_eq!(Accept::from_request_parts(&with("accept", "text/html")).0, "text/html");
    let mut headers = HeaderMap::new();
    headers.insert(HeaderName::from_static("accept"), HeaderValue::from_bytes(b"text/html\xe9").unwrap());
    assert_eq!(Accept::from_request_parts(&headers).0, "");
}

#[test]
fn a_named_header_is_judged() {
    let headers = with("cf-connecting-ip", "192.0.2.9");
    assert_eq!(
        identify_by(&headers, "CF-Connecting-IP"),
        Ok(ClientIdentity { address: IpAddr::V4([192, 0, 2, 9]), source: Source::TrustedHeader })
    );
    assert_eq!(identify_by(&headers, "x-real-ip"), Err(Error::NoHeader));
}
