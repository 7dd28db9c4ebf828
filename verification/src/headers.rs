//! Header extraction: the hop lists read from `X-Forwarded-For`,
//! `X-Real-IP` and `Forwarded` values, and the precedence between the
//! three, together with the one-call resolution entry point.
//!
//! Malformed list entries are dropped and the rest kept (the lenient
//! policy): a broken entry never fails the request, it only shortens
//! the declared chain.

use vstd::prelude::*;
use crate::ip::{IpAddress, TrustSet};
use crate::ipparse::{spec_parse_ip, parse_ip};
use crate::resolver::spec_resolve;
use crate::text::{spec_trim, spec_unquote, spec_unbracket, trim, maybe_quoted, maybe_bracketed};
use crate::tokenizer::{spec_comma_tokens, CommaSeparatedIterator};
use crate::forwarded::spec_forwarded_hops;

verus! {

/// The hop a list entry contributes: the entry is trimmed, unwrapped
/// from quotes, unwrapped from brackets, and read as an IP address.
pub open spec fn spec_token_hop(tok: Seq<char>) -> Option<IpAddress> {
    spec_parse_ip(spec_unbracket(spec_unquote(spec_trim(tok))))
}

/// The hops of the entries, in declaration order, entries without an
/// address dropped.
pub open spec fn spec_hops_of_tokens(toks: Seq<Seq<char>>) -> Seq<IpAddress>
    decreases toks.len(),
{
    if toks.len() == 0 {
        Seq::empty()
    } else {
        match spec_token_hop(toks[0]) {
            Some(ip) => seq![ip] + spec_hops_of_tokens(toks.drop_first()),
            None => spec_hops_of_tokens(toks.drop_first()),
        }
    }
}

/// The hops declared by an `X-Forwarded-For` value.
pub open spec fn spec_ip_list_hops(s: Seq<char>) -> Seq<IpAddress> {
    spec_hops_of_tokens(spec_comma_tokens(s))
}

/// The hop declared by an `X-Real-IP` value: the whole value,
/// unwrapped from quotes and brackets, read as an IP address.
pub open spec fn spec_real_ip_hop(s: Seq<char>) -> Option<IpAddress> {
    spec_parse_ip(spec_unbracket(spec_unquote(s)))
}

/// The view of an optional borrowed header value.
pub open spec fn opt_chars(o: Option<&str>) -> Option<Seq<char>> {
    match o {
        Some(s) => Some(s@),
        None => None,
    }
}

/// The declared hops of a request: the first present header of
/// `X-Forwarded-For`, `X-Real-IP`, `Forwarded` — in that order — is
/// read, and the others are ignored; with none present there are no
/// declared hops.
pub open spec fn spec_header_hops(
    xff: Option<Seq<char>>,
    xreal: Option<Seq<char>>,
    fwd: Option<Seq<char>>,
) -> Seq<IpAddress> {
    match xff {
        Some(s) => spec_ip_list_hops(s),
        None => match xreal {
            Some(s) => match spec_real_ip_hop(s) {
                Some(ip) => seq![ip],
                None => Seq::empty(),
            },
            None => match fwd {
                Some(s) => spec_forwarded_hops(s),
                None => Seq::empty(),
            },
        },
    }
}

/// Parses an `X-Forwarded-For` value: the comma-separated entries that
/// name an address, in order, the rest dropped.
pub fn parse_ip_list(s: &str) -> (r: Vec<IpAddress>)
    ensures
        r@ == spec_ip_list_hops(s@),
{
    let mut it = CommaSeparatedIterator::new(s);
    let mut out: Vec<IpAddress> = Vec::new();
    loop
        invariant_except_break
            it.wf(),
            spec_hops_of_tokens(spec_comma_tokens(s@)) == out@ + spec_hops_of_tokens(
                it.remaining(),
            ),
        ensures
            out@ == spec_hops_of_tokens(spec_comma_tokens(s@)),
        decreases it.remaining().len(),
    {
        let ghost prev = it.remaining();
        match it.next() {
            Some(tok) => {
                let t = trim(tok);
                let unq = maybe_quoted(t);
                let unb = maybe_bracketed(unq.as_str());
                let hop = parse_ip(unb);
                assert(hop == spec_token_hop(prev[0]));
                match hop {
                    Some(ip) => {
                        out.push(ip);
                    },
                    None => {},
                }
            },
            None => {
                assert(spec_hops_of_tokens(it.remaining()) =~= Seq::<IpAddress>::empty());
                break;
            },
        }
    }
    out
}

/// An `X-Forwarded-For` value as the list of addresses it declares.
pub struct CommaSeparated {
    /// The declared addresses, in declaration order.
    pub addrs: Vec<IpAddress>,
}

impl CommaSeparated {
    /// Reads a comma-separated address list, dropping entries that
    /// name no address.
    pub fn parse(s: &str) -> (r: CommaSeparated)
        ensures
            r.addrs@ == spec_ip_list_hops(s@),
    {
        CommaSeparated { addrs: parse_ip_list(s) }
    }

    /// The declared addresses.
    pub fn into_inner(self) -> (r: Vec<IpAddress>)
        ensures
            r@ == self.addrs@,
    {
        self.addrs
    }
}

/// Parses an `X-Real-IP` value into its zero or one hops.
pub fn parse_real_ip_header(s: &str) -> (r: Vec<IpAddress>)
    ensures
        r@ == (match spec_real_ip_hop(s@) {
            Some(ip) => seq![ip],
            None => Seq::<IpAddress>::empty(),
        }),
{
    let unq = maybe_quoted(s);
    let unb = maybe_bracketed(unq.as_str());
    match parse_ip(unb) {
        Some(ip) => {
            let mut out: Vec<IpAddress> = Vec::new();
            out.push(ip);
            assert(out@ =~= seq![ip]);
            out
        },
        None => Vec::new(),
    }
}

/// The declared hops of a request, read from the first present header
/// in precedence order: `X-Forwarded-For`, then `X-Real-IP`, then
/// `Forwarded`.
pub fn header_hops(xff: Option<&str>, xreal: Option<&str>, fwd: Option<&str>) -> (r: Vec<
    IpAddress,
>)
    ensures
        r@ == spec_header_hops(opt_chars(xff), opt_chars(xreal), opt_chars(fwd)),
{
    match xff {
        Some(s) => parse_ip_list(s),
        None => match xreal {
            Some(s) => parse_real_ip_header(s),
            None => match fwd {
                Some(s) => crate::forwarded::forwarded_hops(s),
                None => Vec::new(),
            },
        },
    }
}

/// Resolves the client address of a request from its socket peer, its
/// forwarding headers, and the trusted proxies; without a peer there
/// is no resolution.
pub fn resolve_client_ip(
    trusted: &TrustSet,
    peer: Option<IpAddress>,
    xff: Option<&str>,
    xreal: Option<&str>,
    fwd: Option<&str>,
) -> (r: Option<IpAddress>)
    ensures
        r == (match peer {
            Some(p) => Some(
                spec_resolve(
                    *trusted,
                    spec_header_hops(opt_chars(xff), opt_chars(xreal), opt_chars(fwd)),
                    p,
                ),
            ),
            None => None::<IpAddress>,
        }),
{
    let hops = header_hops(xff, xreal, fwd);
    crate::resolver::resolve_optional(trusted, &hops, peer)
}

} // verus!
