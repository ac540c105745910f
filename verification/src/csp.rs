//! The content security policy of the site, and its header value.

use vstd::prelude::*;
use vstd::string::*;
use tower_sombrero::headers::{ContentSecurityPolicy, CspHashAlgorithm, CspSchemeSource, CspSource};
use crate::security::{all_alphanumeric, SecurityContext};

verus! {

/// `tower_sombrero::headers::CspSchemeSource`, with its variants: an enum
/// without data.
#[verifier::external_type_specification]
pub struct ExCspSchemeSource(CspSchemeSource);

/// `tower_sombrero::headers::CspHashAlgorithm`, with its variants.
#[verifier::external_type_specification]
pub struct ExCspHashAlgorithm(CspHashAlgorithm);

/// `tower_sombrero::headers::CspSource`, with its variants: the sources that
/// a directive lists. The policy below is made of values of it.
#[verifier::external_type_specification]
pub struct ExCspSource(CspSource);

/// How a scheme source is written.
pub open spec fn scheme_text(scheme: CspSchemeSource) -> Seq<char> {
    match scheme {
        CspSchemeSource::Data => "data:"@,
        CspSchemeSource::Mediastream => "mediastream:"@,
        CspSchemeSource::Blob => "blob:"@,
        CspSchemeSource::Filesystem => "filesystem:"@,
        CspSchemeSource::Http => "http:"@,
        CspSchemeSource::Https => "https:"@,
    }
}

/// How a hash algorithm is written.
pub open spec fn algorithm_text(algorithm: CspHashAlgorithm) -> Seq<char> {
    match algorithm {
        CspHashAlgorithm::Sha256 => "sha256"@,
        CspHashAlgorithm::Sha384 => "sha384"@,
        CspHashAlgorithm::Sha512 => "sha512"@,
        CspHashAlgorithm::Custom(name) => name@,
    }
}

/// How the nonce source is written for a given nonce.
pub open spec fn nonce_source(nonce: Seq<char>) -> Seq<char> {
    "'nonce-"@ + nonce + "'"@
}

/// How a source is written in a policy for a given nonce.
pub open spec fn source_text(source: CspSource, nonce: Seq<char>) -> Seq<char> {
    match source {
        CspSource::Host(host) => host@,
        CspSource::Scheme(scheme) => scheme_text(scheme),
        CspSource::Nonce => nonce_source(nonce),
        CspSource::Hash(algorithm, data) => "'"@ + algorithm_text(algorithm) + "-"@ + data@ + "'"@,
        CspSource::SelfOrigin => "'self'"@,
        CspSource::UnsafeEval => "'unsafe-eval'"@,
        CspSource::WasmUnsafeEval => "'wasm-unsafe-eval'"@,
        CspSource::UnsafeHashes => "'unsafe-hashes'"@,
        CspSource::UnsafeInline => "'unsafe-inline'"@,
        CspSource::StrictDynamic => "'strict-dynamic'"@,
        CspSource::ReportSample => "'report-sample'"@,
        CspSource::InlineSpeculationRules => "'inline-speculation-rules'"@,
        CspSource::None => "'none'"@,
    }
}

/// A space, then the text.
pub open spec fn spaced(text: Seq<char>) -> Seq<char> {
    seq![' '] + text
}

/// The sources, each after a space.
pub open spec fn sources_text(sources: Seq<CspSource>, nonce: Seq<char>) -> Seq<char>
    decreases sources.len(),
{
    if sources.len() == 0 {
        seq![]
    } else {
        sources_text(sources.drop_last(), nonce) + spaced(source_text(sources.last(), nonce))
    }
}

/// A directive: its name, its sources and a semicolon; nothing for a directive
/// without sources.
pub open spec fn directive_text(name: Seq<char>, sources: Seq<CspSource>, nonce: Seq<char>) -> Seq<
    char,
> {
    if sources.len() == 0 {
        seq![]
    } else {
        name + sources_text(sources, nonce) + seq![';']
    }
}

/// The directives that the site's policy sets.
pub struct Policy {
    pub default_src: Vec<CspSource>,
    pub connect_src: Vec<CspSource>,
    pub img_src: Vec<CspSource>,
    pub script_src: Vec<CspSource>,
    pub style_src: Vec<CspSource>,
    pub base_uri: Vec<CspSource>,
}

impl Policy {
    /// The header value of the policy for a given nonce.
    pub open spec fn text(&self, nonce: Seq<char>) -> Seq<char> {
        directive_text("default-src"@, self.default_src@, nonce) + directive_text(
            "connect-src"@,
            self.connect_src@,
            nonce,
        ) + directive_text("img-src"@, self.img_src@, nonce) + directive_text(
            "script-src"@,
            self.script_src@,
            nonce,
        ) + directive_text("style-src"@, self.style_src@, nonce) + directive_text(
            "base-uri"@,
            self.base_uri@,
            nonce,
        )
    }
}

/// A character that a header value may hold: any but the control characters;
/// a tab may stand.
pub open spec fn is_header_char(c: char) -> bool {
    let n = c as u32;
    (n >= 32 && n != 127) || n == 9
}

/// Text that can be a header value.
pub open spec fn is_header_text(text: Seq<char>) -> bool {
    forall|i: int| 0 <= i < text.len() ==> is_header_char(#[trigger] text[i])
}

/// `ContentSecurityPolicy::value` of tower_sombrero, on a policy with these six
/// directives set and every other left empty: the directives that have sources,
/// in this order, each as its name, its sources after a space each, and a
/// semicolon. It fails exactly where the text holds a character that no header
/// value may hold.
#[verifier::external_body]
fn policy_value(policy: &Policy, nonce: &str) -> (value: Option<String>)
    ensures
        match value {
            Some(text) => text@ == policy.text(nonce@) && is_header_text(text@),
            None => !is_header_text(policy.text(nonce@)),
        },
{
    let csp = ContentSecurityPolicy::new_empty()
        .default_src(policy.default_src.clone())
        .connect_src(policy.connect_src.clone())
        .img_src(policy.img_src.clone())
        .script_src(policy.script_src.clone())
        .style_src(policy.style_src.clone())
        .base_uri(policy.base_uri.clone());
    match csp.value(nonce) {
        Ok(value) => Some(String::from_utf8_lossy(value.as_bytes()).into_owned()),
        Err(_) => None,
    }
}

/// `default-src 'none';`
pub open spec fn site_default_src() -> Seq<char> {
    "default-src"@ + spaced("'none'"@) + seq![';']
}

/// `connect-src` with the site's own IPv4 and IPv6 subdomains and the
/// analytics host.
pub open spec fn site_connect_src(root: Seq<char>) -> Seq<char> {
    "connect-src"@ + spaced("v4."@ + root) + spaced("v6."@ + root) + spaced(
        "cloudflareinsights.com"@,
    ) + seq![';']
}

/// `img-src 'self';`
pub open spec fn site_img_src() -> Seq<char> {
    "img-src"@ + spaced("'self'"@) + seq![';']
}

/// `script-src` with the nonce, `'unsafe-inline'`, `'strict-dynamic'` and
/// `https:`.
pub open spec fn site_script_src(nonce: Seq<char>) -> Seq<char> {
    "script-src"@ + spaced(nonce_source(nonce)) + spaced("'unsafe-inline'"@) + spaced(
        "'strict-dynamic'"@,
    ) + spaced("https:"@) + seq![';']
}

/// `style-src` with the nonce.
pub open spec fn site_style_src(nonce: Seq<char>) -> Seq<char> {
    "style-src"@ + spaced(nonce_source(nonce)) + seq![';']
}

/// `base-uri 'none';`
pub open spec fn site_base_uri() -> Seq<char> {
    "base-uri"@ + spaced("'none'"@) + seq![';']
}

/// The header value of the site's policy for a root domain name and a nonce.
pub open spec fn site_csp(root: Seq<char>, nonce: Seq<char>) -> Seq<char> {
    site_default_src() + site_connect_src(root) + site_img_src() + site_script_src(nonce)
        + site_style_src(nonce) + site_base_uri()
}

proof fn lemma_sources_push(sources: Seq<CspSource>, source: CspSource, nonce: Seq<char>)
    ensures
        sources_text(sources.push(source), nonce) == sources_text(sources, nonce) + spaced(
            source_text(source, nonce),
        ),
{
    assert(sources.push(source).drop_last() =~= sources);
}

/// The site's policy for a root domain name.
pub fn site_policy(root: &str) -> (policy: Policy)
    ensures
        forall|nonce: Seq<char>| #[trigger] policy.text(nonce) == site_csp(root@, nonce),
{
    let mut default_src: Vec<CspSource> = Vec::new();
    default_src.push(CspSource::None);
    let mut connect_src: Vec<CspSource> = Vec::new();
    let v4 = String::from_str("v4.").concat(root);
    let v6 = String::from_str("v6.").concat(root);
    connect_src.push(CspSource::Host(v4));
    connect_src.push(CspSource::Host(v6));
    connect_src.push(CspSource::Host(String::from_str("cloudflareinsights.com")));
    let mut img_src: Vec<CspSource> = Vec::new();
    img_src.push(CspSource::SelfOrigin);
    let mut script_src: Vec<CspSource> = Vec::new();
    script_src.push(CspSource::Nonce);
    script_src.push(CspSource::UnsafeInline);
    script_src.push(CspSource::StrictDynamic);
    script_src.push(CspSource::Scheme(CspSchemeSource::Https));
    let mut style_src: Vec<CspSource> = Vec::new();
    style_src.push(CspSource::Nonce);
    let mut base_uri: Vec<CspSource> = Vec::new();
    base_uri.push(CspSource::None);
    let policy = Policy { default_src, connect_src, img_src, script_src, style_src, base_uri };
    proof {
        let none: Seq<CspSource> = seq![];
        assert forall|nonce: Seq<char>| #[trigger] policy.text(nonce) == site_csp(root@, nonce) by {
            let e: Seq<char> = seq![];
            assert(sources_text(none, nonce) == e);
            let c0 = none.push(policy.connect_src@[0]);
            let c1 = c0.push(policy.connect_src@[1]);
            let c2 = c1.push(policy.connect_src@[2]);
            let s0 = none.push(CspSource::Nonce);
            let s1 = s0.push(CspSource::UnsafeInline);
            let s2 = s1.push(CspSource::StrictDynamic);
            let s3 = s2.push(CspSource::Scheme(CspSchemeSource::Https));
            lemma_sources_push(none, CspSource::None, nonce);
            lemma_sources_push(none, CspSource::SelfOrigin, nonce);
            lemma_sources_push(none, CspSource::Nonce, nonce);
            lemma_sources_push(none, policy.connect_src@[0], nonce);
            lemma_sources_push(c0, policy.connect_src@[1], nonce);
            lemma_sources_push(c1, policy.connect_src@[2], nonce);
            lemma_sources_push(s0, CspSource::UnsafeInline, nonce);
            lemma_sources_push(s1, CspSource::StrictDynamic, nonce);
            lemma_sources_push(s2, CspSource::Scheme(CspSchemeSource::Https), nonce);
            assert(policy.default_src@ =~= none.push(CspSource::None));
            assert(policy.base_uri@ =~= none.push(CspSource::None));
            assert(policy.img_src@ =~= none.push(CspSource::SelfOrigin));
            assert(policy.style_src@ =~= s0);
            assert(policy.connect_src@ =~= c2);
            assert(policy.script_src@ =~= s3);
            assert(directive_text("default-src"@, policy.default_src@, nonce)
                =~= site_default_src());
            assert(directive_text("connect-src"@, policy.connect_src@, nonce) =~= site_connect_src(
                root@,
            ));
            assert(directive_text("img-src"@, policy.img_src@, nonce) =~= site_img_src());
            assert(directive_text("script-src"@, policy.script_src@, nonce) =~= site_script_src(
                nonce,
            ));
            assert(directive_text("style-src"@, policy.style_src@, nonce) =~= site_style_src(
                nonce,
            ));
            assert(directive_text("base-uri"@, policy.base_uri@, nonce) =~= site_base_uri());
        }
    }
    policy
}

/// The header value of the site's policy for one request: none where the root
/// domain name holds a character that no header value may hold.
pub fn csp_value(root: &str, ctx: &SecurityContext) -> (value: Option<String>)
    ensures
        match value {
            Some(text) => text@ == site_csp(root@, ctx.nonce_text()) && is_header_text(text@),
            None => !is_header_text(site_csp(root@, ctx.nonce_text())),
        },
{
    let policy = site_policy(root);
    assert(policy.text(ctx.nonce_text()) == site_csp(root@, ctx.nonce_text()));
    policy_value(&policy, ctx.nonce())
}

proof fn lemma_header_text_concat(a: Seq<char>, b: Seq<char>)
    requires
        is_header_text(a),
        is_header_text(b),
    ensures
        is_header_text(a + b),
{
    assert forall|i: int| 0 <= i < (a + b).len() implies is_header_char(#[trigger] (a + b)[i]) by {
        if i < a.len() {
            assert((a + b)[i] == a[i]);
        } else {
            assert((a + b)[i] == b[i - a.len()]);
        }
    }
}

proof fn lemma_spaced_header_text(a: Seq<char>, b: Seq<char>)
    requires
        is_header_text(a),
        is_header_text(b),
    ensures
        is_header_text(a + spaced(b)),
{
    lemma_header_text_concat(seq![' '], b);
    lemma_header_text_concat(a, spaced(b));
}

proof fn lemma_nonce_source_header_text(nonce: Seq<char>)
    requires
        all_alphanumeric(nonce),
    ensures
        is_header_text(nonce_source(nonce)),
{
    reveal_strlit("'nonce-");
    reveal_strlit("'");
    assert(is_header_text(nonce)) by {
        assert forall|i: int| 0 <= i < nonce.len() implies is_header_char(#[trigger] nonce[i]) by {
            assert(crate::security::is_alphanumeric(nonce[i]));
        }
    }
    lemma_header_text_concat("'nonce-"@, nonce);
    lemma_header_text_concat("'nonce-"@ + nonce, "'"@);
}

/// With a root domain name that can stand in a header value, the site's policy
/// can be a header value, whatever the nonce.
pub proof fn lemma_site_csp_header_text(root: Seq<char>, nonce: Seq<char>)
    requires
        is_header_text(root),
        all_alphanumeric(nonce),
    ensures
        is_header_text(site_csp(root, nonce)),
{
    let semi = seq![';'];
    lemma_nonce_source_header_text(nonce);
    assert(is_header_text(site_default_src()) && is_header_text(site_base_uri())) by {
        reveal_strlit("default-src");
        reveal_strlit("base-uri");
        reveal_strlit("'none'");
        lemma_spaced_header_text("default-src"@, "'none'"@);
        lemma_header_text_concat("default-src"@ + spaced("'none'"@), semi);
        lemma_spaced_header_text("base-uri"@, "'none'"@);
        lemma_header_text_concat("base-uri"@ + spaced("'none'"@), semi);
    }
    assert(is_header_text(site_img_src())) by {
        reveal_strlit("img-src");
        reveal_strlit("'self'");
        lemma_spaced_header_text("img-src"@, "'self'"@);
        lemma_header_text_concat("img-src"@ + spaced("'self'"@), semi);
    }
    assert(is_header_text(site_style_src(nonce))) by {
        reveal_strlit("style-src");
        lemma_spaced_header_text("style-src"@, nonce_source(nonce));
        lemma_header_text_concat("style-src"@ + spaced(nonce_source(nonce)), semi);
    }
    assert(is_header_text(site_script_src(nonce))) by {
        reveal_strlit("script-src");
        reveal_strlit("'unsafe-inline'");
        reveal_strlit("'strict-dynamic'");
        reveal_strlit("https:");
        let a = "script-src"@ + spaced(nonce_source(nonce));
        let b = a + spaced("'unsafe-inline'"@);
        let c = b + spaced("'strict-dynamic'"@);
        let d = c + spaced("https:"@);
        lemma_spaced_header_text("script-src"@, nonce_source(nonce));
        lemma_spaced_header_text(a, "'unsafe-inline'"@);
        lemma_spaced_header_text(b, "'strict-dynamic'"@);
        lemma_spaced_header_text(c, "https:"@);
        lemma_header_text_concat(d, semi);
    }
    assert(is_header_text(site_connect_src(root))) by {
        reveal_strlit("connect-src");
        reveal_strlit("v4.");
        reveal_strlit("v6.");
        reveal_strlit("cloudflareinsights.com");
        let a = "connect-src"@ + spaced("v4."@ + root);
        let b = a + spaced("v6."@ + root);
        let c = b + spaced("cloudflareinsights.com"@);
        lemma_header_text_concat("v4."@, root);
        lemma_header_text_concat("v6."@, root);
        lemma_spaced_header_text("connect-src"@, "v4."@ + root);
        lemma_spaced_header_text(a, "v6."@ + root);
        lemma_spaced_header_text(b, "cloudflareinsights.com"@);
        lemma_header_text_concat(c, semi);
    }
    let a = site_default_src() + site_connect_src(root);
    let b = a + site_img_src();
    let c = b + site_script_src(nonce);
    let d = c + site_style_src(nonce);
    lemma_header_text_concat(site_default_src(), site_connect_src(root));
    lemma_header_text_concat(a, site_img_src());
    lemma_header_text_concat(b, site_script_src(nonce));
    lemma_header_text_concat(c, site_style_src(nonce));
    lemma_header_text_concat(d, site_base_uri());
}

} // verus!
