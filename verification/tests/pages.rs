use myip::addr::IpAddr;
use myip::pages::{index, not_found, IndexPage, NotFoundPage};

const NONCE: &str = "abcdefghijklmnopqrstuvwxyz012345";

fn page(ip: IpAddr) -> IndexPage {
    IndexPage {
        root_dns_name: "ip.example".to_string(),
        ip,
        description: "Where am I?".to_string(),
        proto: "https".to_string(),
        nonce: NONCE.to_string(),
        style: "body{margin:0}".to_string(),
        script: "load()".to_string(),
    }
}

#[test]
fn the_page_of_an_ipv4_address() {
    let html = index(&page(IpAddr::V4([203, 0, 113, 5])));
    let expected = concat_all(&[
        "<!DOCTYPE html><html lang=\"en\"><head><meta charset=\"UTF-8\">",
        "<meta name=\"viewport\" content=\"width=device-width, initial-scale=1\">",
        "<meta name=\"robots\" content=\"noindex\">",
        "<meta name=\"description\" content=\"Where am I?\">",
        "<link rel=\"preload\" href=\"https://v6.ip.example/raw\" as=\"fetch\" crossorigin=\"anonymous\" nonce=\"abcdefghijklmnopqrstuvwxyz012345\">",
        "<meta name=\"description\" content=\"Where am I?\">",
        "<meta property=\"og:title\" content=\"Your public IP is 203.0.113.5\">",
        "<meta property=\"og:url\" content=\"https://ip.example/\">",
        "<meta property=\"og:description\" content=\"Where am I?\">",
        "<link rel=\"canonical\" href=\"https://ip.example\">",
        "<title>Your public IP is 203.0.113.5</title>",
        "<style nonce=\"abcdefghijklmnopqrstuvwxyz012345\">body{margin:0}</style>",
        "<meta id=\"js-params\" data-set-title=\"false\" data-endpoint=\"https://v6.ip.example/raw\">",
        "</head><body><div class=\"stack\">",
        "<span>Your public IPv4 is <code>203.0.113.5</code></span>",
        "<span id=\"unfilled-ip-container\" hidden>Your public IPv6 is <code id=\"unfilled-ip-code\">(fetching)</code></span>",
        "</div></body>",
        "<script nonce=\"abcdefghijklmnopqrstuvwxyz012345\">load()</script></html>",
    ]);
    assert_eq!(html, expected);
}

fn concat_all(parts: &[&str]) -> String {
    let mut out = String::new();
    for part in parts {
        out.push_str(part);
    }
    out
}

#[test]
fn the_page_of_an_ipv6_address() {
    let html = index(&page(IpAddr::V6([0x2001, 0xdb8, 0, 0, 0, 0, 0, 1])));
    let expected = concat_all(&[
        "<!DOCTYPE html><html lang=\"en\"><head><meta charset=\"UTF-8\">",
        "<meta name=\"viewport\" content=\"width=device-width, initial-scale=1\">",
        "<meta name=\"robots\" content=\"noindex\">",
        "<meta name=\"description\" content=\"Where am I?\">",
        "<link rel=\"preload\" href=\"https://v4.ip.example/raw\" as=\"fetch\" crossorigin=\"anonymous\" nonce=\"abcdefghijklmnopqrstuvwxyz012345\">",
        "<meta name=\"description\" content=\"Where am I?\">",
        "<meta property=\"og:title\" content=\"What's your IP?\">",
        "<meta property=\"og:url\" content=\"https://ip.example/\">",
        "<meta property=\"og:description\" content=\"Where am I?\">",
        "<link rel=\"canonical\" href=\"https://ip.example\">",
        "<title>What's your IP?</title>",
        "<style nonce=\"abcdefghijklmnopqrstuvwxyz012345\">body{margin:0}</style>",
        "<meta id=\"js-params\" data-set-title=\"true\" data-endpoint=\"https://v4.ip.example/raw\">",
        "</head><body><div class=\"stack\">",
        "<span id=\"unfilled-ip-container\" hidden>Your public IPv4 is <code id=\"unfilled-ip-code\">(fetching)</code></span>",
        "<span>Your public IPv6 is <code>2001:db8::1</code></span>",
        "</div></body>",
        "<script nonce=\"abcdefghijklmnopqrstuvwxyz012345\">load()</script></html>",
    ]);
    assert_eq!(html, expected);
}

#[test]
fn what_is_configured_or_sent_is_escaped() {
    let mut shown = page(IpAddr::V4([10, 0, 0, 1]));
    shown.description = "Tom & \"Jerry\" <b>".to_string();
    shown.proto = "ht\"tp<s>".to_string();
    shown.root_dns_name = "a&b".to_string();
    let html = index(&shown);
    assert!(html.contains("content=\"Tom &amp; &quot;Jerry&quot; &lt;b&gt;\""));
    assert!(html.contains("href=\"ht&quot;tp&lt;s&gt;://v6.a&amp;b/raw\""));
    assert!(html.contains("content=\"ht&quot;tp&lt;s&gt;://a&amp;b/\""));
    assert!(html.contains("<link rel=\"canonical\" href=\"https://a&amp;b\">"));
    assert!(!html.contains("Tom & "));
    assert!(!html.contains("<b>"));
}

#[test]
fn the_stylesheet_and_the_script_are_not_escaped() {
    let mut shown = page(IpAddr::V4([10, 0, 0, 1]));
    shown.style = "a>b{content:\"&\"}".to_string();
    shown.script = "if (a < b && c) { d(\"e\") }".to_string();
    let html = index(&shown);
    assert!(html.contains("\">a>b{content:\"&\"}</style>"));
    assert!(html.contains("\">if (a < b && c) { d(\"e\") }</script>"));
}

#[test]
fn a_quote_in_text_stays() {
    let mut shown = page(IpAddr::V4([10, 0, 0, 1]));
    shown.description = "it's".to_string();
    assert!(index(&shown).contains("content=\"it's\""));
}

#[test]
fn the_not_found_page() {
    let html = not_found(&NotFoundPage { nonce: NONCE.to_string(), style: "body{margin:0}".to_string() });
    let expected = concat_all(&[
        "<!DOCTYPE html><html lang=\"en\"><head><meta charset=\"UTF-8\">",
        "<meta name=\"viewport\" content=\"width=device-width, initial-scale=1\">",
        "<meta name=\"robots\" content=\"noindex\">",
        "<meta name=\"description\" content=\"How did we get here? This website only has a root page.\">",
        "<title>404 Not Found</title>",
        "<style nonce=\"abcdefghijklmnopqrstuvwxyz012345\">body{margin:0}</style>",
        "</head><body><div class=\"stack\"><span>404 not found</span>",
        "<a class=\"home\" href=\"/\">Go home?</a></div></body></html>",
    ]);
    assert_eq!(html, expected);
}
