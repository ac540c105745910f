//! Whose request it is: the client's address, from the trusted header or from
//! the transport.

use vstd::prelude::*;
use axum::http::{HeaderMap, HeaderValue};
use crate::addr::{Addr, IpAddr, IpAddress};
use crate::error::Error;
use crate::grammar::is_ip_text;
use crate::headers::{first_value, header_value};
use crate::parse::parse;
use crate::reading::lemma_ip_text_unique;
use crate::state::AppState;
use crate::text::{all_visible_ascii, is_text_bytes};

verus! {

/// Where a client's address was taken from.
#[derive(Clone, Copy, Debug, PartialEq, Eq, Structural)]
pub enum Source {
    TrustedHeader,
    TransportPeer,
}

/// The client of one request.
#[derive(Clone, Copy, Debug, PartialEq, Eq)]
pub struct ClientIdentity {
    pub address: IpAddr,
    pub source: Source,
}

/// The mathematical value of a [`ClientIdentity`].
pub struct ClientIdentityView {
    pub address: Addr,
    pub source: Source,
}

impl View for ClientIdentity {
    type V = ClientIdentityView;

    open spec fn view(&self) -> ClientIdentityView {
        ClientIdentityView { address: self.address@, source: self.source }
    }
}

/// The address that `text` denotes, if it denotes one.
pub open spec fn address_of(text: Seq<u8>) -> Option<Addr> {
    if exists|addr: Addr| is_ip_text(text, addr) {
        Some(choose|addr: Addr| is_ip_text(text, addr))
    } else {
        None
    }
}

/// What the value of the trusted header gives: an error where the request
/// does not carry the header, where the value is no text, and where the text
/// is no IP address; else the address that the text denotes.
pub open spec fn identified(value: Option<Seq<u8>>) -> Result<ClientIdentityView, Error> {
    match value {
        None => Err(Error::NoHeader),
        Some(bytes) => if !is_text_bytes(bytes) {
            Err(Error::ToStr)
        } else {
            match address_of(bytes) {
                Some(address) => Ok(
                    ClientIdentityView { address, source: Source::TrustedHeader },
                ),
                None => Err(Error::ToAddr),
            }
        },
    }
}

/// The identity of the client of a request with these headers and this peer
/// address, under a configuration that trusts the header `trusted`, or none:
/// with a trusted header, what its value gives, whatever the peer address;
/// without one, the peer address.
pub open spec fn resolved(trusted: Option<Seq<char>>, headers: HeaderMap<HeaderValue>, peer: Addr)
    -> Result<ClientIdentityView, Error> {
    match trusted {
        Some(name) => identified(header_value(headers, name)),
        None => Ok(ClientIdentityView { address: peer, source: Source::TransportPeer }),
    }
}

/// The view of an outcome.
pub open spec fn outcome_view(r: Result<ClientIdentity, Error>) -> Result<
    ClientIdentityView,
    Error,
> {
    match r {
        Ok(identity) => Ok(identity@),
        Err(e) => Err(e),
    }
}

/// The client that the value of the trusted header names; `None` stands for a
/// request without the header.
pub fn identify(value: Option<&[u8]>) -> (r: Result<ClientIdentity, Error>)
    ensures
        outcome_view(r) == identified(
            match value {
                Some(bytes) => Some(bytes@),
                None => None,
            },
        ),
{
    match value {
        None => Err(Error::NoHeader),
        Some(bytes) => {
            if !all_visible_ascii(bytes) {
                return Err(Error::ToStr);
            }
            match parse(bytes) {
                Some(address) => {
                    proof {
                        lemma_ip_text_unique(bytes@, address@, address_of(bytes@).unwrap());
                    }
                    Ok(ClientIdentity { address, source: Source::TrustedHeader })
                },
                None => Err(Error::ToAddr),
            }
        },
    }
}

/// The client that the header `name` of a request names.
pub fn identify_by(headers: &HeaderMap<HeaderValue>, name: &str) -> (r: Result<
    ClientIdentity,
    Error,
>)
    ensures
        outcome_view(r) == identified(header_value(*headers, name@)),
{
    match first_value(headers, name) {
        Some(bytes) => identify(Some(bytes.as_slice())),
        None => identify(None),
    }
}

/// The client of a request: where a header is trusted, the address that the
/// header carries, and an error where it carries none; else the peer address.
pub fn resolve(headers: &HeaderMap<HeaderValue>, peer: IpAddr, state: &AppState) -> (r: Result<
    ClientIdentity,
    Error,
>)
    ensures
        outcome_view(r) == resolved(state@.header, *headers, peer@),
{
    match state.header() {
        Some(name) => identify_by(headers, name.as_str()),
        None => Ok(ClientIdentity { address: peer, source: Source::TransportPeer }),
    }
}

/// The address of the client of a request whose peer address may be unknown:
/// the address of [`resolved`], which asks for the peer address only where no
/// header is trusted; an error where it is asked for and not known.
pub open spec fn extracted(
    trusted: Option<Seq<char>>,
    headers: HeaderMap<HeaderValue>,
    peer: Option<Addr>,
) -> Result<Addr, Error> {
    match trusted {
        Some(name) => match identified(header_value(headers, name)) {
            Ok(identity) => Ok(identity.address),
            Err(e) => Err(e),
        },
        None => match peer {
            Some(addr) => Ok(addr),
            None => Err(Error::ConnectInfo),
        },
    }
}

impl IpAddress {
    /// The address of the client of a request, as far as the transport knows
    /// its peer.
    pub fn from_request_parts(
        headers: &HeaderMap<HeaderValue>,
        peer: Option<IpAddr>,
        state: &AppState,
    ) -> (r: Result<IpAddress, Error>)
        ensures
            match extracted(
                state@.header,
                *headers,
                match peer {
                    Some(addr) => Some(addr@),
                    None => None,
                },
            ) {
                Ok(addr) => r matches Ok(ip) && ip@ == addr,
                Err(e) => r == Err::<IpAddress, Error>(e),
            },
    {
        match state.header() {
            Some(name) => match identify_by(headers, name.as_str()) {
                Ok(identity) => Ok(IpAddress(identity.address)),
                Err(e) => Err(e),
            },
            None => match peer {
                Some(addr) => Ok(IpAddress(addr)),
                None => Err(Error::ConnectInfo),
            },
        }
    }
}

} // verus!
