use myip::csp::{csp_value, site_policy};
use myip::error::Error;
use myip::security::{check_nonce, SecurityContext, NONCE_LEN};
use myip::state::{check_header_text, AppState, Assets, DEFAULT_DESCRIPTION};

const NONCE: &str = "abcdefghijklmnopqrstuvwxyz012345";

fn assets() -> Assets {
    Assets { style: "s".to_string(), script: "j".to_string(), humans: "h".to_string() }
}

#[test]
fn a_fresh_nonce_is_32_letters_and_digits() {
    for _ in 0..200 {
        let ctx = SecurityContext::generate();
        assert_eq!(ctx.nonce().len(), NONCE_LEN);
        assert_eq!(ctx.nonce().len(), 32);
        assert!(ctx.nonce().chars().all(|c| c.is_ascii_alphanumeric()));
        assert!(check_nonce(ctx.nonce()));
    }
}

#[test]
fn two_fresh_nonces_differ() {
    let mut seen: Vec<String> = Vec::new();
    for _ in 0..500 {
        let nonce = SecurityContext::generate().nonce().to_string();
        assert!(!seen.contains(&nonce));
        seen.push(nonce);
    }
}

#[test]
fn a_given_nonce_is_kept() {
    let ctx = SecurityContext::new(NONCE.to_string()).unwrap();
    assert_eq!(ctx.nonce(), NONCE);
    assert_eq!(ctx.clone().nonce(), NONCE);
}

#[test]
fn what_is_no_nonce_is_refused() {
    for text in [
        "",
        "short",
        "abcdefghijklmnopqrstuvwxyz01234",
        "abcdefghijklmnopqrstuvwxyz0123456",
        "abcdefghijklmnopqrstuvwxyz01234-",
        "abcdefghijklmnopqrstuvwxyz01234 ",
        "abcdefghijklmnopqrstuvwxyz01234é",
        "abcdefghijklmnopqrstuvwxyz0123'\"",
    ] {
        assert!(!check_nonce(text), "{}", text);
        assert_eq!(SecurityContext::new(text.to_string()).err(), Some(Error::NoNonce), "{}", text);
    }
}

#[test]
fn the_policy_is_written_for_the_root_and_the_nonce() {
    let ctx = SecurityContext::new(NONCE.to_string()).unwrap();
    let expected = "default-src 'none';\
        connect-src v4.ip.example v6.ip.example cloudflareinsights.com;\
        img-src 'self';\
        script-src 'nonce-abcdefghijklmnopqrstuvwxyz012345' 'unsafe-inline' 'strict-dynamic' https:;\
        style-src 'nonce-abcdefghijklmnopqrstuvwxyz012345';\
        base-uri 'none';";
    assert_eq!(csp_value("ip.example", &ctx), Some(expected.to_string()));
}

#[test]
fn the_policy_changes_with_the_nonce() {
    let one = SecurityContext::new(NONCE.to_string()).unwrap();
    let other = SecurityContext::new("ABCDEFGHIJKLMNOPQRSTUVWXYZ987654".to_string()).unwrap();
    let first = csp_value("ip.example", &one).unwrap();
    let second = csp_value("ip.example", &other).unwrap();
    assert_ne!(first, second);
    assert!(second.contains("style-src 'nonce-ABCDEFGHIJKLMNOPQRSTUVWXYZ987654';"));
    assert!(!second.contains(NONCE));
}

#[test]
fn a_root_that_no_header_can_hold_gives_no_policy() {
    let ctx = SecurityContext::new(NONCE.to_string()).unwrap();
    assert_eq!(csp_value("ip.example\n", &ctx), None);
    assert_eq!(csp_value("ip\u{7f}example", &ctx), None);
    assert!(csp_value("ip example\t", &ctx).is_some());
    assert!(csp_value("ïp.example", &ctx).unwrap().contains("connect-src v4.ïp.example v6.ïp.example "));
}

#[test]
fn the_policy_sets_six_directives() {
    let policy = site_policy("ip.example");
    assert_eq!(policy.default_src.len(), 1);
    assert_eq!(policy.connect_src.len(), 3);
    assert_eq!(policy.img_src.len(), 1);
    assert_eq!(policy.script_src.len(), 4);
    assert_eq!(policy.style_src.len(), 1);
    assert_eq!(policy.base_uri.len(), 1);
}

#[test]
fn tells_what_a_header_can_hold() {
    assert!(check_header_text("ip.example"));
    assert!(check_header_text(""));
    assert!(check_header_text("tab\there"));
    assert!(check_header_text("ünïcödé"));
    assert!(!check_header_text("line\nbreak"));
    assert!(!check_header_text("nul\0"));
    assert!(!check_header_text("del\u{7f}"));
}

#[test]
fn a_configuration_keeps_what_it_is_given() {
    let state = AppState::new(
        Some("X-Real-IP".to_string()),
        "ip.example".to_string(),
        Some("Where am I?".to_string()),
        assets(),
    )
    .unwrap();
    assert_eq!(state.header().map(String::as_str), Some("X-Real-IP"));
    assert_eq!(state.root_dns_name(), "ip.example");
    assert_eq!(state.description(), "Where am I?");
    assert_eq!(state.style(), "s");
    assert_eq!(state.script(), "j");
    assert_eq!(state.humans(), "h");
    let copy = state.clone();
    assert_eq!(copy.header().map(String::as_str), Some("X-Real-IP"));
    assert_eq!(copy.root_dns_name(), "ip.example");
}

#[test]
fn the_description_has_a_default() {
    let state = AppState::new(None, "ip.example".to_string(), None, assets()).unwrap();
    assert_eq!(state.description(), "IP address return API and site");
    assert_eq!(state.description(), DEFAULT_DESCRIPTION);
    assert_eq!(state.header(), None);
}

#[test]
fn a_header_name_that_is_none_is_refused() {
    for name in ["", "X Real IP", "x-real-ip:", "x-réal-ip", "x\nreal", "(x)", "a,b", "a/b", "a=b"] {
        let got = AppState::new(Some(name.to_string()), "ip.example".to_string(), None, assets());
        assert!(got.is_none(), "{}", name);
    }
    let long = "a".repeat(65536);
    assert!(AppState::new(Some(long), "ip.example".to_string(), None, assets()).is_none());
}

#[test]
fn every_token_is_a_header_name() {
    for name in ["x", "X-Real-IP", "cf-connecting-ip", "a!#$%&'*+-.^_`|~z", "0", "UPPER"] {
        let got = AppState::new(Some(name.to_string()), "ip.example".to_string(), None, assets());
        assert!(got.is_some(), "{}", name);
    }
    let long = "a".repeat(65535);
    assert!(AppState::new(Some(long), "ip.example".to_string(), None, assets()).is_some());
}

#[test]
fn a_root_that_no_header_can_hold_is_refused() {
    assert!(AppState::new(None, "ip.example\r\n".to_string(), None, assets()).is_none());
    assert!(AppState::new(None, "\u{1b}".to_string(), None, assets()).is_none());
}
