//! The structured `Forwarded` header grammar: the value splits on
//! commas into elements (a comma inside a double-quoted substring does
//! not split), each element splits on semicolons into `key=value`
//! pairs, and the value of the `for` key contributes a hop when it is
//! an IP node identifier.
//!
//! A node identifier is dotted-quad IPv4 text, or bracketed IPv6 text,
//! either followed by an optional `:port`; other identifiers (the
//! keyword `unknown`, obfuscated names) carry no address. An element
//! with a pair lacking `=`, or whose `for` value is not an IP node
//! identifier, contributes nothing; the rest of the header still does.

use vstd::prelude::*;
use crate::ip::IpAddress;
use crate::ipparse::{is_digit, digit_val, spec_find_from, spec_parse_ipv4, spec_parse_ipv6};
use crate::text::{spec_trim, spec_unquote};

verus! {

/// The pieces of `t` from position `i` on, split at every `d` that
/// stands outside double quotes. `start` is where the current piece
/// began; `inq` and `esc` say whether the scan stands inside quotes,
/// and right after a backslash inside quotes.
pub open spec fn spec_split_from(
    t: Seq<char>,
    d: char,
    i: nat,
    start: nat,
    inq: bool,
    esc: bool,
) -> Seq<Seq<char>>
    decreases t.len() - i,
{
    if i >= t.len() {
        seq![t.subrange(start as int, t.len() as int)]
    } else {
        let c = t[i as int];
        if inq {
            if esc {
                spec_split_from(t, d, i + 1, start, true, false)
            } else if c == '"' {
                spec_split_from(t, d, i + 1, start, false, false)
            } else if c == '\\' {
                spec_split_from(t, d, i + 1, start, true, true)
            } else {
                spec_split_from(t, d, i + 1, start, true, false)
            }
        } else {
            if c == d {
                seq![t.subrange(start as int, i as int)] + spec_split_from(
                    t,
                    d,
                    i + 1,
                    i + 1,
                    false,
                    false,
                )
            } else if c == '"' {
                spec_split_from(t, d, i + 1, start, true, false)
            } else {
                spec_split_from(t, d, i + 1, start, false, false)
            }
        }
    }
}

/// The pieces of `t`, split at every `d` outside double quotes. An
/// empty input is one empty piece.
pub open spec fn spec_split_outside_quotes(t: Seq<char>, d: char) -> Seq<Seq<char>> {
    spec_split_from(t, d, 0, 0, false, false)
}

/// The views of a vector of character vectors.
pub open spec fn char_seqs(s: Seq<Vec<char>>) -> Seq<Seq<char>> {
    s.map_values(|x: Vec<char>| x@)
}

/// Splits at every `d` outside double quotes.
#[verifier::loop_isolation(false)]
fn split_outside_quotes(v: &Vec<char>, d: char) -> (r: Vec<Vec<char>>)
    ensures
        char_seqs(r@) == spec_split_outside_quotes(v@, d),
{
    let n = v.len();
    let mut out: Vec<Vec<char>> = Vec::new();
    let mut i: usize = 0;
    let mut start: usize = 0;
    let mut inq = false;
    let mut esc = false;
    while i < n
        invariant
            start <= i <= n,
            spec_split_outside_quotes(v@, d) == char_seqs(out@) + spec_split_from(
                v@,
                d,
                i as nat,
                start as nat,
                inq,
                esc,
            ),
            esc ==> inq,
        decreases n - i,
    {
        let c = v[i];
        if inq {
            if esc {
                esc = false;
            } else if c == '"' {
                inq = false;
            } else if c == '\\' {
                esc = true;
            }
            i = i + 1;
        } else {
            if c == d {
                let ghost out0 = out@;
                let piece = crate::ipparse::subvec(v, start, i);
                out.push(piece);
                proof {
                    assert(char_seqs(out@) =~= char_seqs(out0) + seq![
                        v@.subrange(start as int, i as int),
                    ]);
                    assert(char_seqs(out0) + spec_split_from(
                        v@,
                        d,
                        i as nat,
                        start as nat,
                        false,
                        false,
                    ) =~= char_seqs(out@) + spec_split_from(v@, d, (i + 1) as nat, (i + 1) as nat, false, false));
                }
                start = i + 1;
                i = i + 1;
            } else {
                if c == '"' {
                    inq = true;
                }
                i = i + 1;
            }
        }
    }
    let ghost out0 = out@;
    let piece = crate::ipparse::subvec(v, start, n);
    out.push(piece);
    proof {
        assert(char_seqs(out@) =~= char_seqs(out0) + seq![v@.subrange(start as int, n as int)]);
        assert(char_seqs(out@) =~= char_seqs(out0) + spec_split_from(
            v@,
            d,
            n as nat,
            start as nat,
            inq,
            esc,
        ));
    }
    out
}

/// Whether every character of `t` is a decimal digit.
pub open spec fn all_digits(t: Seq<char>) -> bool {
    forall|i: int| 0 <= i < t.len() ==> is_digit(#[trigger] t[i])
}

/// The number named by digit text, most significant digit first.
pub open spec fn spec_dec_value(t: Seq<char>) -> int
    decreases t.len(),
{
    if t.len() == 0 {
        0
    } else {
        spec_dec_value(t.drop_last()) * 10 + digit_val(t.last())
    }
}

/// A valid port: one to five digits naming a number up to 65535.
pub open spec fn spec_valid_port(t: Seq<char>) -> bool {
    1 <= t.len() <= 5 && all_digits(t) && spec_dec_value(t) <= 65535
}

/// Whether the text is a valid port.
fn is_valid_port(v: &Vec<char>) -> (r: bool)
    ensures
        r == spec_valid_port(v@),
{
    let n = v.len();
    if n < 1 || n > 5 {
        return false;
    }
    let mut val: u32 = 0;
    let mut j: usize = 0;
    while j < n
        invariant
            j <= n <= 5,
            n == v@.len(),
            all_digits(v@.subrange(0, j as int)),
            val == spec_dec_value(v@.subrange(0, j as int)),
            j == 0 ==> val == 0,
            j == 1 ==> val <= 9,
            j == 2 ==> val <= 99,
            j == 3 ==> val <= 999,
            j == 4 ==> val <= 9999,
            j == 5 ==> val <= 99999,
        decreases n - j,
    {
        let c = v[j];
        let u = c as u32;
        if !(('0' as u32) <= u && u <= ('9' as u32)) {
            assert(!is_digit(v@[j as int]));
            return false;
        }
        proof {
            assert(v@.subrange(0, j + 1).drop_last() =~= v@.subrange(0, j as int));
            assert(v@.subrange(0, j + 1).last() == v@[j as int]);
            assert(all_digits(v@.subrange(0, j + 1)));
        }
        val = val * 10 + (u - '0' as u32);
        j = j + 1;
    }
    assert(v@.subrange(0, n as int) =~= v@);
    val <= 65535
}

/// The address of an IP node identifier: bracketed IPv6 text or
/// dotted-quad IPv4 text, either followed by an optional `:port`.
pub open spec fn spec_parse_node_ip(t: Seq<char>) -> Option<IpAddress> {
    if t.len() > 0 && t[0] == '[' {
        match spec_find_from(t, ']', 0) {
            Some(q) => {
                let inner = t.subrange(1, q);
                let after = t.subrange(q + 1, t.len() as int);
                let after_ok = after.len() == 0 || (after[0] == ':' && spec_valid_port(
                    after.subrange(1, after.len() as int),
                ));
                match spec_parse_ipv6(inner) {
                    Some(x) => if after_ok {
                        Some(IpAddress::V6(x))
                    } else {
                        None
                    },
                    None => None,
                }
            },
            None => None,
        }
    } else {
        match spec_find_from(t, ':', 0) {
            Some(p) => {
                match spec_parse_ipv4(t.subrange(0, p)) {
                    Some(x) => if spec_valid_port(t.subrange(p + 1, t.len() as int)) {
                        Some(IpAddress::V4(x))
                    } else {
                        None
                    },
                    None => None,
                }
            },
            None => {
                match spec_parse_ipv4(t) {
                    Some(x) => Some(IpAddress::V4(x)),
                    None => None,
                }
            },
        }
    }
}

/// Parses an IP node identifier.
fn parse_node_ip(v: &Vec<char>) -> (r: Option<IpAddress>)
    ensures
        r == spec_parse_node_ip(v@),
{
    let n = v.len();
    if n > 0 && v[0] == '[' {
        match crate::ipparse::find_from(v, ']', 0) {
            Some(q) => {
                let inner = crate::ipparse::subvec(v, 1, q);
                let after = crate::ipparse::subvec(v, q + 1, n);
                let after_ok = if after.len() == 0 {
                    true
                } else if after[0] == ':' {
                    let port = crate::ipparse::subvec(&after, 1, after.len());
                    is_valid_port(&port)
                } else {
                    false
                };
                match crate::ipparse::parse_ipv6(&inner) {
                    Some(x) => if after_ok {
                        Some(IpAddress::V6(x))
                    } else {
                        None
                    },
                    None => None,
                }
            },
            None => None,
        }
    } else {
        match crate::ipparse::find_from(v, ':', 0) {
            Some(p) => {
                let name = crate::ipparse::subvec(v, 0, p);
                let port = crate::ipparse::subvec(v, p + 1, n);
                match crate::ipparse::parse_ipv4(&name) {
                    Some(x) => if is_valid_port(&port) {
                        Some(IpAddress::V4(x))
                    } else {
                        None
                    },
                    None => None,
                }
            },
            None => {
                match crate::ipparse::parse_ipv4(v) {
                    Some(x) => Some(IpAddress::V4(x)),
                    None => None,
                }
            },
        }
    }
}

/// The position of the `=` that splits a pair into key and value.
pub open spec fn spec_pair_eq(p: Seq<char>) -> Option<int> {
    spec_find_from(p, '=', 0)
}

/// A well-formed pair holds an `=`.
pub open spec fn spec_pair_wf(p: Seq<char>) -> bool {
    spec_pair_eq(p) is Some
}

/// Every pair of the element is well-formed.
pub open spec fn spec_pairs_wf(pairs: Seq<Seq<char>>) -> bool {
    forall|i: int| 0 <= i < pairs.len() ==> spec_pair_wf(#[trigger] pairs[i])
}

/// The `for` parameter name, compared without regard to case.
pub open spec fn is_for_key(k: Seq<char>) -> bool {
    k.len() == 3 && (k[0] == 'f' || k[0] == 'F') && (k[1] == 'o' || k[1] == 'O') && (k[2] == 'r'
        || k[2] == 'R')
}

/// Whether the pair's key, trimmed, is `for`.
pub open spec fn spec_pair_is_for(p: Seq<char>) -> bool {
    spec_pair_wf(p) && is_for_key(spec_trim(p.subrange(0, spec_pair_eq(p)->Some_0)))
}

/// The pair's value, trimmed.
pub open spec fn spec_pair_value(p: Seq<char>) -> Seq<char> {
    spec_trim(p.subrange(spec_pair_eq(p)->Some_0 + 1, p.len() as int))
}

/// The value of the first `for` pair at or after position `j`.
pub open spec fn spec_for_value_from(pairs: Seq<Seq<char>>, j: nat) -> Option<Seq<char>>
    decreases pairs.len() - j,
{
    if j >= pairs.len() {
        None
    } else if spec_pair_is_for(pairs[j as int]) {
        Some(spec_pair_value(pairs[j as int]))
    } else {
        spec_for_value_from(pairs, j + 1)
    }
}

/// The hop an element contributes: the unquoted value of its first
/// `for` pair, when that value is an IP node identifier and every pair
/// of the element is well-formed.
pub open spec fn spec_element_hop(e: Seq<char>) -> Option<IpAddress> {
    let pairs = spec_split_outside_quotes(e, ';');
    if spec_pairs_wf(pairs) {
        match spec_for_value_from(pairs, 0) {
            Some(v) => spec_parse_node_ip(spec_unquote(v)),
            None => None,
        }
    } else {
        None
    }
}

/// The hops of the elements, in declaration order.
pub open spec fn spec_hops_of_elements(els: Seq<Seq<char>>) -> Seq<IpAddress>
    decreases els.len(),
{
    if els.len() == 0 {
        Seq::empty()
    } else {
        match spec_element_hop(els[0]) {
            Some(ip) => seq![ip] + spec_hops_of_elements(els.drop_first()),
            None => spec_hops_of_elements(els.drop_first()),
        }
    }
}

/// The hops declared by a whole `Forwarded` header value.
pub open spec fn spec_forwarded_hops(s: Seq<char>) -> Seq<IpAddress> {
    spec_hops_of_elements(spec_split_outside_quotes(s, ','))
}

/// Whether the key text is `for`, in any case.
fn is_for_key_chars(k: &Vec<char>) -> (r: bool)
    ensures
        r == is_for_key(k@),
{
    k.len() == 3 && (k[0] == 'f' || k[0] == 'F') && (k[1] == 'o' || k[1] == 'O') && (k[2] == 'r'
        || k[2] == 'R')
}

/// The hop one element contributes, if any.
#[verifier::loop_isolation(false)]
fn element_hop(e: &Vec<char>) -> (r: Option<IpAddress>)
    ensures
        r == spec_element_hop(e@),
{
    let pairs = split_outside_quotes(e, ';');
    let ghost sp = spec_split_outside_quotes(e@, ';');
    let np = pairs.len();
    let mut forval: Option<Vec<char>> = None;
    let mut j: usize = 0;
    while j < np
        invariant
            j <= np,
            np == pairs@.len(),
            forall|i: int| 0 <= i < j ==> spec_pair_wf(#[trigger] sp[i]),
            match forval {
                Some(v) => spec_for_value_from(sp, 0) == Some(v@),
                None => spec_for_value_from(sp, 0) == spec_for_value_from(sp, j as nat),
            },
        decreases np - j,
    {
        let p = &pairs[j];
        assert(p@ == sp[j as int]);
        match crate::ipparse::find_from(p, '=', 0) {
            None => {
                assert(!spec_pair_wf(sp[j as int]));
                return None;
            },
            Some(q) => {
                let key = crate::text::trim_chars(&crate::ipparse::subvec(p, 0, q));
                let keep = match forval {
                    None => true,
                    Some(_) => false,
                };
                if keep && is_for_key_chars(&key) {
                    let val = crate::text::trim_chars(
                        &crate::ipparse::subvec(p, q + 1, p.len()),
                    );
                    assert(spec_pair_is_for(sp[j as int]));
                    assert(val@ == spec_pair_value(sp[j as int]));
                    assert(spec_for_value_from(sp, j as nat) == Some(val@));
                    forval = Some(val);
                } else {
                    proof {
                        if forval is None {
                            assert(!spec_pair_is_for(sp[j as int]));
                            assert(spec_for_value_from(sp, j as nat) == spec_for_value_from(
                                sp,
                                (j + 1) as nat,
                            ));
                        }
                    }
                }
            },
        }
        j = j + 1;
    }
    assert(spec_pairs_wf(sp));
    match forval {
        Some(v) => {
            let unq = crate::text::unquote_chars(&v);
            parse_node_ip(&unq)
        },
        None => None,
    }
}

/// The hops declared by a `Forwarded` header value, in declaration
/// order; an element that contributes no hop is passed over.
#[verifier::loop_isolation(false)]
pub fn forwarded_hops(s: &str) -> (r: Vec<IpAddress>)
    ensures
        r@ == spec_forwarded_hops(s@),
{
    let v = crate::text::chars_of(s);
    let els = split_outside_quotes(&v, ',');
    let ghost se = spec_split_outside_quotes(v@, ',');
    let ne = els.len();
    let mut out: Vec<IpAddress> = Vec::new();
    let mut j: usize = 0;
    assert(se.skip(0) =~= se);
    while j < ne
        invariant
            j <= ne,
            ne == els@.len(),
            spec_hops_of_elements(se) == out@ + spec_hops_of_elements(se.skip(j as int)),
        decreases ne - j,
    {
        let ghost rest = se.skip(j as int);
        assert(rest[0] == se[j as int]);
        assert(rest.drop_first() =~= se.skip(j + 1));
        let hop = element_hop(&els[j]);
        assert(els@[j as int]@ == se[j as int]);
        match hop {
            Some(ip) => {
                out.push(ip);
            },
            None => {},
        }
        j = j + 1;
    }
    assert(se.skip(ne as int) =~= Seq::<Seq<char>>::empty());
    out
}

} // verus!
