//! What can go wrong while a request is answered.

use vstd::prelude::*;
use vstd::string::*;

verus! {

/// Why a request cannot be answered. Each ends the request with a 500 response
/// that carries the error's message.
#[derive(Clone, Copy, Debug, PartialEq, Eq, Structural)]
pub enum Error {
    /// A trusted header is configured and the request does not carry it.
    NoHeader,
    /// The transport's peer address is not known.
    ConnectInfo,
    /// No nonce could be had for the request.
    NoNonce,
    /// The trusted header's value is not text.
    ToStr,
    /// The trusted header's value is no IP address.
    ToAddr,
}

impl Error {
    /// The message of the error.
    pub open spec fn message_text(self) -> Seq<char> {
        match self {
            Error::NoHeader => "No header found"@,
            Error::ConnectInfo => "Could not extract connection info"@,
            Error::NoNonce => "Could not get CSP nonce"@,
            Error::ToStr => "Could not convert supplied header to string (this is a configuration issue)"@,
            Error::ToAddr => "Could not convert supplied header to IP address (this is a configuration issue)"@,
        }
    }

    /// The message of the error.
    pub fn message(&self) -> (text: &'static str)
        ensures
            text@ == self.message_text(),
    {
        match self {
            Error::NoHeader => "No header found",
            Error::ConnectInfo => "Could not extract connection info",
            Error::NoNonce => "Could not get CSP nonce",
            Error::ToStr => "Could not convert supplied header to string (this is a configuration issue)",
            Error::ToAddr => "Could not convert supplied header to IP address (this is a configuration issue)",
        }
    }

    /// The message of the error, owned.
    pub fn to_string(&self) -> (text: String)
        ensures
            text@ == self.message_text(),
    {
        String::from_str(self.message())
    }
}

} // verus!
