//! The two HTML pages: the address page and the "not found" page.
//!
//! Markup is written without whitespace between elements. Configured and
//! client-supplied text is escaped; the stylesheet and the script are inserted
//! as they are.

use vstd::prelude::*;
use vstd::string::*;
use crate::addr::{ip_text, Addr, IpAddr};
use crate::text::chars_of;

verus! {

/// What one character becomes in markup.
pub open spec fn escape_char(c: char) -> Seq<char> {
    if c == '&' {
        "&amp;"@
    } else if c == '<' {
        "&lt;"@
    } else if c == '>' {
        "&gt;"@
    } else if c == '"' {
        "&quot;"@
    } else {
        seq![c]
    }
}

/// `text` with `&`, `<`, `>` and `"` replaced by their entities.
pub open spec fn escaped(text: Seq<char>) -> Seq<char>
    decreases text.len(),
{
    if text.len() == 0 {
        seq![]
    } else {
        escaped(text.drop_last()) + escape_char(text.last())
    }
}

/// `maud::Render::render` on a `str`: the text with `&`, `<`, `>` and `"`
/// replaced by `&amp;`, `&lt;`, `&gt;` and `&quot;`, every other character kept.
#[verifier::external_body]
pub(crate) fn escape(text: &str) -> (out: String)
    ensures
        out@ == escaped(text@),
{
    maud::Render::render(text).into_string()
}

/// What the address page shows.
#[derive(Clone, Debug)]
pub struct IndexPage {
    pub root_dns_name: String,
    pub ip: IpAddr,
    pub description: String,
    pub proto: String,
    pub nonce: String,
    pub style: String,
    pub script: String,
}

/// The mathematical value of an [`IndexPage`].
pub struct IndexPageView {
    pub root_dns_name: Seq<char>,
    pub ip: Addr,
    pub description: Seq<char>,
    pub proto: Seq<char>,
    pub nonce: Seq<char>,
    pub style: Seq<char>,
    pub script: Seq<char>,
}

impl View for IndexPage {
    type V = IndexPageView;

    open spec fn view(&self) -> IndexPageView {
        IndexPageView {
            root_dns_name: self.root_dns_name@,
            ip: self.ip@,
            description: self.description@,
            proto: self.proto@,
            nonce: self.nonce@,
            style: self.style@,
            script: self.script@,
        }
    }
}

/// What the "not found" page shows.
#[derive(Clone, Debug)]
pub struct NotFoundPage {
    pub nonce: String,
    pub style: String,
}

/// The mathematical value of a [`NotFoundPage`].
pub struct NotFoundPageView {
    pub nonce: Seq<char>,
    pub style: Seq<char>,
}

impl View for NotFoundPage {
    type V = NotFoundPageView;

    open spec fn view(&self) -> NotFoundPageView {
        NotFoundPageView { nonce: self.nonce@, style: self.style@ }
    }
}

/// The subdomain that serves the other address family.
pub open spec fn opposite_family(ip: Addr) -> Seq<char> {
    match ip {
        Addr::V4(_) => "v6"@,
        Addr::V6(_) => "v4"@,
    }
}

/// Where the page's script asks for the address of the other family.
pub open spec fn opposite_endpoint(page: IndexPageView) -> Seq<char> {
    page.proto + "://"@ + opposite_family(page.ip) + "."@ + page.root_dns_name + "/raw"@
}

/// The page's own address.
pub open spec fn current_url(page: IndexPageView) -> Seq<char> {
    page.proto + "://"@ + page.root_dns_name + "/"@
}

/// The address that search engines are pointed to.
pub open spec fn canonical_url(page: IndexPageView) -> Seq<char> {
    "https://"@ + page.root_dns_name
}

/// The page title: it names an IPv4 address; an IPv6 address is filled in by
/// the script.
pub open spec fn title_text(ip: Addr) -> Seq<char> {
    match ip {
        Addr::V4(_) => "Your public IP is "@ + chars_of(ip_text(ip)),
        Addr::V6(_) => "What's your IP?"@,
    }
}

/// `true` or `false`.
pub open spec fn bool_text(b: bool) -> Seq<char> {
    if b {
        "true"@
    } else {
        "false"@
    }
}

/// The opening tag of a `<style>` element with a nonce.
pub open spec fn style_open(nonce: Seq<char>) -> Seq<char> {
    "<style nonce=\""@ + escaped(nonce) + "\">"@
}

/// The opening tag of a `<script>` element with a nonce.
pub open spec fn script_open(nonce: Seq<char>) -> Seq<char> {
    "<script nonce=\""@ + escaped(nonce) + "\">"@
}

/// A `<style>` element that the policy's nonce admits.
pub open spec fn style_element(nonce: Seq<char>, style: Seq<char>) -> Seq<char> {
    style_open(nonce) + style + "</style>"@
}

/// A `<script>` element that the policy's nonce admits.
pub open spec fn script_element(nonce: Seq<char>, script: Seq<char>) -> Seq<char> {
    script_open(nonce) + script + "</script>"@
}

/// The `<head>` of the address page up to its stylesheet: what the page is
/// about, and where its script finds the address of the other family.
pub open spec fn index_head_open(page: IndexPageView) -> Seq<char> {
    "<head><meta charset=\"UTF-8\"><meta name=\"viewport\" content=\"width=device-width, initial-scale=1\"><meta name=\"robots\" content=\"noindex\"><meta name=\"description\" content=\""@
        + escaped(page.description) + "\"><link rel=\"preload\" href=\""@ + escaped(
        opposite_endpoint(page),
    ) + "\" as=\"fetch\" crossorigin=\"anonymous\" nonce=\""@ + escaped(page.nonce)
        + "\"><meta name=\"description\" content=\""@ + escaped(page.description)
        + "\"><meta property=\"og:title\" content=\""@ + title_text(page.ip)
        + "\"><meta property=\"og:url\" content=\""@ + escaped(current_url(page))
        + "\"><meta property=\"og:description\" content=\""@ + escaped(page.description)
        + "\"><link rel=\"canonical\" href=\""@ + escaped(canonical_url(page)) + "\"><title>"@
        + title_text(page.ip) + "</title>"@
}

/// The end of the `<head>` of the address page: what its script is told.
pub open spec fn index_head_close(page: IndexPageView) -> Seq<char> {
    "<meta id=\"js-params\" data-set-title=\""@ + bool_text(page.ip is V6)
        + "\" data-endpoint=\""@ + escaped(opposite_endpoint(page)) + "\"></head>"@
}

/// The `<head>` of the address page.
pub open spec fn index_head(page: IndexPageView) -> Seq<char> {
    index_head_open(page) + style_element(page.nonce, page.style) + index_head_close(page)
}

/// The `<body>` of the address page: the address of the request's family, and a
/// hidden place for the other family's.
pub open spec fn index_body(ip: Addr) -> Seq<char> {
    match ip {
        Addr::V4(_) => "<body><div class=\"stack\"><span>Your public IPv4 is <code>"@ + chars_of(
            ip_text(ip),
        )
            + "</code></span><span id=\"unfilled-ip-container\" hidden>Your public IPv6 is <code id=\"unfilled-ip-code\">(fetching)</code></span></div></body>"@,
        Addr::V6(_) => "<body><div class=\"stack\"><span id=\"unfilled-ip-container\" hidden>Your public IPv4 is <code id=\"unfilled-ip-code\">(fetching)</code></span><span>Your public IPv6 is <code>"@
            + chars_of(ip_text(ip)) + "</code></span></div></body>"@,
    }
}

/// The address page.
pub open spec fn index_html(page: IndexPageView) -> Seq<char> {
    "<!DOCTYPE html><html lang=\"en\">"@ + index_head(page) + index_body(page.ip)
        + script_element(page.nonce, page.script) + "</html>"@
}

/// The "not found" page.
pub open spec fn not_found_html(page: NotFoundPageView) -> Seq<char> {
    "<!DOCTYPE html><html lang=\"en\"><head><meta charset=\"UTF-8\"><meta name=\"viewport\" content=\"width=device-width, initial-scale=1\"><meta name=\"robots\" content=\"noindex\"><meta name=\"description\" content=\"How did we get here? This website only has a root page.\"><title>404 Not Found</title>"@
        + style_element(page.nonce, page.style)
        + "</head><body><div class=\"stack\"><span>404 not found</span><a class=\"home\" href=\"/\">Go home?</a></div></body></html>"@
}

fn style_tag(nonce: &str, style: &str) -> (out: String)
    ensures
        out@ == style_element(nonce@, style@),
{
    let mut out = String::from_str("<style nonce=\"");
    out.append(escape(nonce).as_str());
    out.append("\">");
    out.append(style);
    out.append("</style>");
    out
}

fn script_tag(nonce: &str, script: &str) -> (out: String)
    ensures
        out@ == script_element(nonce@, script@),
{
    let mut out = String::from_str("<script nonce=\"");
    out.append(escape(nonce).as_str());
    out.append("\">");
    out.append(script);
    out.append("</script>");
    out
}

fn title_of(ip: &IpAddr) -> (out: String)
    ensures
        out@ == title_text(ip@),
{
    match ip {
        IpAddr::V4(_) => {
            let mut out = String::from_str("Your public IP is ");
            out.append(ip.to_string().as_str());
            out
        },
        IpAddr::V6(_) => String::from_str("What's your IP?"),
    }
}

fn endpoint_of(page: &IndexPage) -> (out: String)
    ensures
        out@ == opposite_endpoint(page@),
{
    let mut out = page.proto.clone();
    out.append("://");
    match page.ip {
        IpAddr::V4(_) => out.append("v6"),
        IpAddr::V6(_) => out.append("v4"),
    }
    out.append(".");
    out.append(page.root_dns_name.as_str());
    out.append("/raw");
    out
}

fn head_open_of(page: &IndexPage) -> (out: String)
    ensures
        out@ == index_head_open(page@),
{
    let description = escape(page.description.as_str());
    let endpoint = escape(endpoint_of(page).as_str());
    let title = title_of(&page.ip);
    let mut current = page.proto.clone();
    current.append("://");
    current.append(page.root_dns_name.as_str());
    current.append("/");
    let mut canonical = String::from_str("https://");
    canonical.append(page.root_dns_name.as_str());

    let mut out = String::from_str(
        "<head><meta charset=\"UTF-8\"><meta name=\"viewport\" content=\"width=device-width, initial-scale=1\"><meta name=\"robots\" content=\"noindex\"><meta name=\"description\" content=\"",
    );
    out.append(description.as_str());
    out.append("\"><link rel=\"preload\" href=\"");
    out.append(endpoint.as_str());
    out.append("\" as=\"fetch\" crossorigin=\"anonymous\" nonce=\"");
    out.append(escape(page.nonce.as_str()).as_str());
    out.append("\"><meta name=\"description\" content=\"");
    out.append(description.as_str());
    out.append("\"><meta property=\"og:title\" content=\"");
    out.append(title.as_str());
    out.append("\"><meta property=\"og:url\" content=\"");
    out.append(escape(current.as_str()).as_str());
    out.append("\"><meta property=\"og:description\" content=\"");
    out.append(description.as_str());
    out.append("\"><link rel=\"canonical\" href=\"");
    out.append(escape(canonical.as_str()).as_str());
    out.append("\"><title>");
    out.append(title.as_str());
    out.append("</title>");
    out
}

fn head_close_of(page: &IndexPage) -> (out: String)
    ensures
        out@ == index_head_close(page@),
{
    let mut out = String::from_str("<meta id=\"js-params\" data-set-title=\"");
    if page.ip.is_ipv6() {
        out.append("true");
    } else {
        out.append("false");
    }
    out.append("\" data-endpoint=\"");
    out.append(escape(endpoint_of(page).as_str()).as_str());
    out.append("\"></head>");
    out
}

fn head_of(page: &IndexPage) -> (out: String)
    ensures
        out@ == index_head(page@),
{
    let mut out = head_open_of(page);
    out.append(style_tag(page.nonce.as_str(), page.style.as_str()).as_str());
    out.append(head_close_of(page).as_str());
    out
}

fn body_of(ip: &IpAddr) -> (out: String)
    ensures
        out@ == index_body(ip@),
{
    let text = ip.to_string();
    match ip {
        IpAddr::V4(_) => {
            let mut out = String::from_str(
                "<body><div class=\"stack\"><span>Your public IPv4 is <code>",
            );
            out.append(text.as_str());
            out.append(
                "</code></span><span id=\"unfilled-ip-container\" hidden>Your public IPv6 is <code id=\"unfilled-ip-code\">(fetching)</code></span></div></body>",
            );
            out
        },
        IpAddr::V6(_) => {
            let mut out = String::from_str(
                "<body><div class=\"stack\"><span id=\"unfilled-ip-container\" hidden>Your public IPv4 is <code id=\"unfilled-ip-code\">(fetching)</code></span><span>Your public IPv6 is <code>",
            );
            out.append(text.as_str());
            out.append("</code></span></div></body>");
            out
        },
    }
}

/// Renders the address page.
pub fn index(page: &IndexPage) -> (html: String)
    ensures
        html@ == index_html(page@),
{
    let mut html = String::from_str("<!DOCTYPE html><html lang=\"en\">");
    html.append(head_of(page).as_str());
    html.append(body_of(&page.ip).as_str());
    html.append(script_tag(page.nonce.as_str(), page.script.as_str()).as_str());
    html.append("</html>");
    html
}

/// Renders the "not found" page.
pub fn not_found(page: &NotFoundPage) -> (html: String)
    ensures
        html@ == not_found_html(page@),
{
    let mut html = String::from_str(
        "<!DOCTYPE html><html lang=\"en\"><head><meta charset=\"UTF-8\"><meta name=\"viewport\" content=\"width=device-width, initial-scale=1\"><meta name=\"robots\" content=\"noindex\"><meta name=\"description\" content=\"How did we get here? This website only has a root page.\"><title>404 Not Found</title>",
    );
    html.append(style_tag(page.nonce.as_str(), page.style.as_str()).as_str());
    html.append(
        "</head><body><div class=\"stack\"><span>404 not found</span><a class=\"home\" href=\"/\">Go home?</a></div></body></html>",
    );
    html
}

/// A character that markup gives a meaning to.
pub open spec fn is_markup_char(c: char) -> bool {
    c == '&' || c == '<' || c == '>' || c == '"'
}

/// Text without characters that markup gives a meaning to is escaped to itself.
pub proof fn lemma_escaped_plain(text: Seq<char>)
    requires
        forall|i: int| 0 <= i < text.len() ==> !is_markup_char(#[trigger] text[i]),
    ensures
        escaped(text) == text,
    decreases text.len(),
{
    if text.len() > 0 {
        assert forall|i: int| 0 <= i < text.drop_last().len() implies !is_markup_char(
            #[trigger] text.drop_last()[i],
        ) by {
            assert(text.drop_last()[i] == text[i]);
        }
        lemma_escaped_plain(text.drop_last());
        assert(!is_markup_char(text[text.len() - 1]));
        assert(escaped(text) =~= text);
    }
}

} // verus!
