//! Answers "what is my IP address" requests.
//!
//! A request's client is the address that a trusted header carries, or the
//! transport's peer address where no header is trusted ([`identity`]). The
//! answer is HTML, JSON or plain text, as the request accepts ([`negotiate`]),
//! and goes out with the headers of its route's class and a content security
//! policy around a nonce of its own ([`response`], [`csp`], [`security`]).
//! [`router::respond`] does all of it for one request; [`laws`] states what
//! holds of every answer.
//!
//! Addresses are plain values with a canonical text ([`addr`]); which texts
//! are addresses is said in [`grammar`], and [`parse`] reads them.

pub mod addr;
pub mod canonical;
pub mod csp;
pub mod error;
pub mod grammar;
pub mod headers;
pub mod identity;
pub mod laws;
pub mod negotiate;
pub mod pages;
pub mod parse;
pub mod reading;
pub mod response;
pub mod router;
pub mod security;
pub mod state;
pub mod text;
