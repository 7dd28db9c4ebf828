//! Resolution of the real client IP address of a proxied HTTP request.
//!
//! Given the socket peer address, the forwarding headers supplied by
//! reverse proxies (`Forwarded`, `X-Forwarded-For`, `X-Real-IP`), and a
//! set of trusted proxy networks, the library walks the declared hop
//! chain from the peer outward and returns the first hop that is not
//! vouched for by a trusted proxy.

pub mod ip;
pub mod ipparse;
pub mod forwarded;
pub mod headers;
pub mod resolver;
pub mod text;
pub mod tokenizer;
