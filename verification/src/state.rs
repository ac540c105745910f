//! What a deployment is configured with: set once, read by every request.

use vstd::prelude::*;
use vstd::string::*;
use crate::csp::{is_header_char, is_header_text};
use crate::headers::{header_name_accepted, is_header_name};
use crate::text::chars;

verus! {

/// The description of the site where none is configured.
pub const DEFAULT_DESCRIPTION: &'static str = "IP address return API and site";

/// The fixed texts that the deployment brings: the stylesheet and the script
/// of the pages, and the body of `/humans.txt`.
#[derive(Clone, Debug)]
pub struct Assets {
    pub style: String,
    pub script: String,
    pub humans: String,
}

/// The configuration of a deployment.
#[derive(Debug)]
pub struct AppState {
    header: Option<String>,
    root_dns_name: String,
    description: String,
    style: String,
    script: String,
    humans: String,
}

/// The mathematical value of an [`AppState`].
pub struct AppStateView {
    /// The name of the header that is trusted to carry the client's address;
    /// none where the transport's peer address is used.
    pub header: Option<Seq<char>>,
    /// The domain name under which the site is served.
    pub root_dns_name: Seq<char>,
    /// The description that the pages carry.
    pub description: Seq<char>,
    pub style: Seq<char>,
    pub script: Seq<char>,
    pub humans: Seq<char>,
}

impl AppStateView {
    /// The trusted header's name, if one is configured, is a header name, and
    /// the root domain name can stand in a header value.
    pub open spec fn wf(self) -> bool {
        &&& self.header matches Some(name) ==> is_header_name(name)
        &&& is_header_text(self.root_dns_name)
    }
}

/// Whether `text` can stand in a header value.
pub fn check_header_text(text: &str) -> (ok: bool)
    ensures
        ok == is_header_text(text@),
{
    let cs = chars(text);
    let mut i: usize = 0;
    while i < cs.len()
        invariant
            i <= cs.len(),
            cs@ == text@,
            forall|j: int| 0 <= j < i ==> is_header_char(#[trigger] cs@[j]),
        decreases cs.len() - i,
    {
        let n = cs[i] as u32;
        if !((n >= 32 && n != 127) || n == 9) {
            assert(!is_header_char(text@[i as int]));
            return false;
        }
        i += 1;
    }
    true
}

impl View for AppState {
    type V = AppStateView;

    closed spec fn view(&self) -> AppStateView {
        AppStateView {
            header: match self.header {
                Some(name) => Some(name@),
                None => None,
            },
            root_dns_name: self.root_dns_name@,
            description: self.description@,
            style: self.style@,
            script: self.script@,
            humans: self.humans@,
        }
    }
}

impl Clone for AppState {
    fn clone(&self) -> (copy: Self)
        ensures
            copy@ == self@,
    {
        proof {
            use_type_invariant(self);
        }
        AppState {
            header: match &self.header {
                Some(name) => Some(name.clone()),
                None => None,
            },
            root_dns_name: self.root_dns_name.clone(),
            description: self.description.clone(),
            style: self.style.clone(),
            script: self.script.clone(),
            humans: self.humans.clone(),
        }
    }
}

impl AppState {
    #[verifier::type_invariant]
    spec fn valid(self) -> bool {
        self@.wf()
    }

    /// The configuration from its parts: the name of the trusted header, if
    /// one is trusted; the root domain name; the description, if one is
    /// configured; the fixed texts. None where the header's name is no header
    /// name, or the root domain name cannot stand in a header value.
    pub fn new(
        client_ip_header: Option<String>,
        root_dns_name: String,
        description: Option<String>,
        assets: Assets,
    ) -> (r: Option<AppState>)
        ensures
            ({
                let view = AppStateView {
                    header: match client_ip_header {
                        Some(name) => Some(name@),
                        None => None,
                    },
                    root_dns_name: root_dns_name@,
                    description: match description {
                        Some(text) => text@,
                        None => DEFAULT_DESCRIPTION@,
                    },
                    style: assets.style@,
                    script: assets.script@,
                    humans: assets.humans@,
                };
                match r {
                    Some(state) => view.wf() && state@ == view,
                    None => !view.wf(),
                }
            }),
    {
        let header_ok = match &client_ip_header {
            Some(name) => header_name_accepted(name.as_str()),
            None => true,
        };
        if !header_ok || !check_header_text(root_dns_name.as_str()) {
            return None;
        }
        let description = match description {
            Some(text) => text,
            None => String::from_str(DEFAULT_DESCRIPTION),
        };
        Some(
            AppState {
                header: client_ip_header,
                root_dns_name,
                description,
                style: assets.style,
                script: assets.script,
                humans: assets.humans,
            },
        )
    }

    /// The name of the trusted header, if one is configured.
    pub fn header(&self) -> (name: Option<&String>)
        ensures
            self@.wf(),
            match name {
                Some(name) => self@.header == Some(name@),
                None => self@.header is None,
            },
    {
        proof {
            use_type_invariant(self);
        }
        self.header.as_ref()
    }

    /// The root domain name.
    pub fn root_dns_name(&self) -> (name: &str)
        ensures
            self@.wf(),
            name@ == self@.root_dns_name,
    {
        proof {
            use_type_invariant(self);
        }
        self.root_dns_name.as_str()
    }

    /// The description of the site.
    pub fn description(&self) -> (text: &str)
        ensures
            text@ == self@.description,
    {
        self.description.as_str()
    }

    /// The stylesheet of the pages.
    pub fn style(&self) -> (text: &str)
        ensures
            text@ == self@.style,
    {
        self.style.as_str()
    }

    /// The script of the address page.
    pub fn script(&self) -> (text: &str)
        ensures
            text@ == self@.script,
    {
        self.script.as_str()
    }

    /// The body of `/humans.txt`.
    pub fn humans(&self) -> (text: &str)
        ensures
            text@ == self@.humans,
    {
        self.humans.as_str()
    }
}

} // verus!
