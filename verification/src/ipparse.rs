//! Parsing of IP address text: dotted-quad IPv4 and RFC 4291 IPv6
//! notation (hex groups, one `::` compression, an optional embedded
//! dotted-quad tail), each character checked against the grammar.
//!
//! An octet is one to three decimal digits with no leading zero and a
//! value of at most 255; a hex group is one to four hex digits.

use vstd::prelude::*;
use crate::ip::IpAddress;

verus! {

/// A decimal digit.
pub open spec fn is_digit(c: char) -> bool {
    '0' as u32 <= c as u32 <= '9' as u32
}

/// The value of a decimal digit.
pub open spec fn digit_val(c: char) -> int {
    c as u32 - '0' as u32
}

/// A hexadecimal digit, either case.
pub open spec fn is_hex_digit(c: char) -> bool {
    is_digit(c) || 'a' as u32 <= c as u32 <= 'f' as u32 || 'A' as u32 <= c as u32 <= 'F' as u32
}

/// The value of a hexadecimal digit.
pub open spec fn hex_val(c: char) -> int {
    if is_digit(c) {
        digit_val(c)
    } else if 'a' as u32 <= c as u32 <= 'f' as u32 {
        c as u32 - 'a' as u32 + 10
    } else {
        c as u32 - 'A' as u32 + 10
    }
}

/// The first position at or after `i` holding `c`.
pub open spec fn spec_find_from(t: Seq<char>, c: char, i: nat) -> Option<int>
    decreases t.len() - i,
{
    if i >= t.len() {
        None
    } else if t[i as int] == c {
        Some(i as int)
    } else {
        spec_find_from(t, c, i + 1)
    }
}

/// The value of a decimal octet: one to three digits, no leading zero,
/// at most 255.
pub open spec fn spec_parse_octet(t: Seq<char>) -> Option<int> {
    if t.len() == 1 && is_digit(t[0]) {
        Some(digit_val(t[0]))
    } else if t.len() == 2 && is_digit(t[0]) && is_digit(t[1]) && t[0] != '0' {
        Some(10 * digit_val(t[0]) + digit_val(t[1]))
    } else if t.len() == 3 && is_digit(t[0]) && is_digit(t[1]) && is_digit(t[2]) && t[0] != '0'
        && 100 * digit_val(t[0]) + 10 * digit_val(t[1]) + digit_val(t[2]) <= 255 {
        Some(100 * digit_val(t[0]) + 10 * digit_val(t[1]) + digit_val(t[2]))
    } else {
        None
    }
}

/// The value of a hex group: one to four hex digits.
pub open spec fn spec_parse_hex_group(t: Seq<char>) -> Option<int> {
    if t.len() == 1 && is_hex_digit(t[0]) {
        Some(hex_val(t[0]))
    } else if t.len() == 2 && is_hex_digit(t[0]) && is_hex_digit(t[1]) {
        Some(16 * hex_val(t[0]) + hex_val(t[1]))
    } else if t.len() == 3 && is_hex_digit(t[0]) && is_hex_digit(t[1]) && is_hex_digit(t[2]) {
        Some(256 * hex_val(t[0]) + 16 * hex_val(t[1]) + hex_val(t[2]))
    } else if t.len() == 4 && is_hex_digit(t[0]) && is_hex_digit(t[1]) && is_hex_digit(t[2])
        && is_hex_digit(t[3]) {
        Some(4096 * hex_val(t[0]) + 256 * hex_val(t[1]) + 16 * hex_val(t[2]) + hex_val(t[3]))
    } else {
        None
    }
}

/// The value of dotted-quad IPv4 text: exactly four octets separated
/// by single dots.
pub open spec fn spec_parse_ipv4(t: Seq<char>) -> Option<u32> {
    match spec_find_from(t, '.', 0) {
        None => None,
        Some(p1) => match spec_find_from(t, '.', (p1 + 1) as nat) {
            None => None,
            Some(p2) => match spec_find_from(t, '.', (p2 + 1) as nat) {
                None => None,
                Some(p3) => if spec_find_from(t, '.', (p3 + 1) as nat) is Some {
                    None
                } else {
                    match (
                        spec_parse_octet(t.subrange(0, p1)),
                        spec_parse_octet(t.subrange(p1 + 1, p2)),
                        spec_parse_octet(t.subrange(p2 + 1, p3)),
                        spec_parse_octet(t.subrange(p3 + 1, t.len() as int)),
                    ) {
                        (Some(a), Some(b), Some(c), Some(d)) => Some(
                            (a * 0x1000000 + b * 0x10000 + c * 0x100 + d) as u32,
                        ),
                        _ => None,
                    }
                },
            },
        },
    }
}

/// The first position whose character and successor are both colons:
/// the start of a `::` compression.
pub open spec fn spec_find_double_colon(t: Seq<char>, i: nat) -> Option<int>
    decreases t.len() - i,
{
    if i + 1 >= t.len() {
        None
    } else if t[i as int] == ':' && t[i as int + 1] == ':' {
        Some(i as int)
    } else {
        spec_find_double_colon(t, i + 1)
    }
}

/// The group values of a non-empty colon-separated group list. Each
/// piece is a hex group; when `allow_v4` holds, a final piece holding a
/// dot may instead be dotted-quad text, contributing its two high and
/// low 16-bit halves.
pub open spec fn spec_parse_groups(t: Seq<char>, allow_v4: bool) -> Option<Seq<int>>
    decreases t.len(),
{
    if t.len() == 0 {
        None
    } else {
        match spec_find_from(t, ':', 0) {
            Some(p) => {
                // an empty piece is malformed; the upper bound always
                // holds of a found position and keeps the recursion
                // visibly well-founded
                if !(0 < p < t.len()) {
                    None
                } else {
                    match (
                        spec_parse_hex_group(t.subrange(0, p)),
                        spec_parse_groups(t.subrange(p + 1, t.len() as int), allow_v4),
                    ) {
                        (Some(g), Some(rest)) => Some(seq![g] + rest),
                        _ => None,
                    }
                }
            },
            None => {
                if allow_v4 && spec_find_from(t, '.', 0) is Some {
                    match spec_parse_ipv4(t) {
                        Some(v) => Some(seq![v as int / 0x10000, v as int % 0x10000]),
                        None => None,
                    }
                } else {
                    match spec_parse_hex_group(t) {
                        Some(g) => Some(seq![g]),
                        None => None,
                    }
                }
            },
        }
    }
}

/// The 128-bit value of eight 16-bit groups, most significant first.
pub open spec fn spec_groups_value(gs: Seq<int>) -> u128
    recommends
        gs.len() == 8,
{
    (((((((gs[0] * 0x10000 + gs[1]) * 0x10000 + gs[2]) * 0x10000 + gs[3]) * 0x10000 + gs[4])
        * 0x10000 + gs[5]) * 0x10000 + gs[6]) * 0x10000 + gs[7]) as u128
}

/// The value of IPv6 text: eight groups, or a single `::` compression
/// standing for the missing zero groups, with an optional dotted-quad
/// tail counting as two groups.
pub open spec fn spec_parse_ipv6(t: Seq<char>) -> Option<u128> {
    match spec_find_double_colon(t, 0) {
        None => match spec_parse_groups(t, true) {
            Some(gs) => if gs.len() == 8 {
                Some(spec_groups_value(gs))
            } else {
                None
            },
            None => None,
        },
        Some(p) => {
            let left = t.subrange(0, p);
            let right = t.subrange(p + 2, t.len() as int);
            let lgs = if left.len() == 0 {
                Some(Seq::<int>::empty())
            } else {
                spec_parse_groups(left, false)
            };
            let rgs = if right.len() == 0 {
                Some(Seq::<int>::empty())
            } else {
                spec_parse_groups(right, true)
            };
            match (lgs, rgs) {
                (Some(l), Some(r)) => if l.len() + r.len() <= 7 {
                    Some(
                        spec_groups_value(
                            l + Seq::new((8 - l.len() - r.len()) as nat, |i: int| 0int) + r,
                        ),
                    )
                } else {
                    None
                },
                _ => None,
            }
        },
    }
}

/// The address named by a token: dotted-quad IPv4 text or IPv6 text.
pub open spec fn spec_parse_ip(t: Seq<char>) -> Option<IpAddress> {
    match spec_parse_ipv4(t) {
        Some(v) => Some(IpAddress::V4(v)),
        None => match spec_parse_ipv6(t) {
            Some(v) => Some(IpAddress::V6(v)),
            None => None,
        },
    }
}

/// Whether the character is a decimal digit.
fn is_digit_char(c: char) -> (r: bool)
    ensures
        r == is_digit(c),
{
    let u = c as u32;
    ('0' as u32) <= u && u <= ('9' as u32)
}

/// The value of a decimal digit character.
fn digit_value(c: char) -> (r: u8)
    requires
        is_digit(c),
    ensures
        r as int == digit_val(c),
{
    (c as u32 - '0' as u32) as u8
}

/// Whether the character is a hexadecimal digit.
fn is_hex_digit_char(c: char) -> (r: bool)
    ensures
        r == is_hex_digit(c),
{
    let u = c as u32;
    (('0' as u32) <= u && u <= ('9' as u32)) || (('a' as u32) <= u && u <= ('f' as u32)) || (('A'
        as u32) <= u && u <= ('F' as u32))
}

/// The value of a hexadecimal digit character.
fn hex_value(c: char) -> (r: u8)
    requires
        is_hex_digit(c),
    ensures
        r as int == hex_val(c),
{
    let u = c as u32;
    if ('0' as u32) <= u && u <= ('9' as u32) {
        (u - '0' as u32) as u8
    } else if ('a' as u32) <= u && u <= ('f' as u32) {
        (u - 'a' as u32 + 10) as u8
    } else {
        (u - 'A' as u32 + 10) as u8
    }
}

/// The first position at or after `from` holding `c`.
pub(crate) fn find_from(v: &Vec<char>, c: char, from: usize) -> (r: Option<usize>)
    requires
        from <= v@.len(),
    ensures
        match r {
            Some(p) => spec_find_from(v@, c, from as nat) == Some(p as int) && from <= p
                < v@.len() && v@[p as int] == c,
            None => spec_find_from(v@, c, from as nat) is None,
        },
{
    let n = v.len();
    let mut j: usize = from;
    while j < n
        invariant
            from <= j <= n,
            n == v@.len(),
            spec_find_from(v@, c, from as nat) == spec_find_from(v@, c, j as nat),
            forall|k: int| from <= k < j ==> v@[k] != c,
        decreases n - j,
    {
        if v[j] == c {
            return Some(j);
        }
        j = j + 1;
    }
    None
}

/// The first position at or after `from` where two colons stand together.
fn find_double_colon(v: &Vec<char>, from: usize) -> (r: Option<usize>)
    requires
        from <= v@.len(),
    ensures
        match r {
            Some(p) => spec_find_double_colon(v@, from as nat) == Some(p as int) && from <= p
                && p + 1 < v@.len(),
            None => spec_find_double_colon(v@, from as nat) is None,
        },
{
    let n = v.len();
    if n == 0 {
        return None;
    }
    let mut j: usize = from;
    while j < n - 1
        invariant
            1 <= n,
            from <= j,
            j <= n,
            n == v@.len(),
            spec_find_double_colon(v@, from as nat) == spec_find_double_colon(v@, j as nat),
        decreases n - j,
    {
        if v[j] == ':' && v[j + 1] == ':' {
            return Some(j);
        }
        j = j + 1;
    }
    None
}

/// A copy of the characters from `lo` up to `hi`.
pub(crate) fn subvec(v: &Vec<char>, lo: usize, hi: usize) -> (r: Vec<char>)
    requires
        lo <= hi <= v@.len(),
    ensures
        r@ == v@.subrange(lo as int, hi as int),
{
    let mut r: Vec<char> = Vec::new();
    let mut j: usize = lo;
    while j < hi
        invariant
            lo <= j <= hi <= v@.len(),
            r@ == v@.subrange(lo as int, j as int),
        decreases hi - j,
    {
        r.push(v[j]);
        assert(r@ =~= v@.subrange(lo as int, j + 1));
        j = j + 1;
    }
    r
}

/// Parses a decimal octet.
fn parse_octet(v: &Vec<char>) -> (r: Option<u8>)
    ensures
        match r {
            Some(x) => spec_parse_octet(v@) == Some(x as int),
            None => spec_parse_octet(v@) is None,
        },
{
    if v.len() == 1 {
        if is_digit_char(v[0]) {
            Some(digit_value(v[0]))
        } else {
            None
        }
    } else if v.len() == 2 {
        if is_digit_char(v[0]) && is_digit_char(v[1]) && v[0] != '0' {
            Some(10 * digit_value(v[0]) + digit_value(v[1]))
        } else {
            None
        }
    } else if v.len() == 3 {
        if is_digit_char(v[0]) && is_digit_char(v[1]) && is_digit_char(v[2]) && v[0] != '0' {
            let x = 100 * (digit_value(v[0]) as u32) + 10 * (digit_value(v[1]) as u32)
                + digit_value(v[2]) as u32;
            if x <= 255 {
                Some(x as u8)
            } else {
                None
            }
        } else {
            None
        }
    } else {
        None
    }
}

/// Parses a hex group.
#[verifier::rlimit(60)]
fn parse_hex_group(v: &Vec<char>) -> (r: Option<u16>)
    ensures
        match r {
            Some(x) => spec_parse_hex_group(v@) == Some(x as int),
            None => spec_parse_hex_group(v@) is None,
        },
{
    if v.len() == 1 {
        if is_hex_digit_char(v[0]) {
            Some(hex_value(v[0]) as u16)
        } else {
            None
        }
    } else if v.len() == 2 {
        if is_hex_digit_char(v[0]) && is_hex_digit_char(v[1]) {
            Some(16 * (hex_value(v[0]) as u16) + hex_value(v[1]) as u16)
        } else {
            None
        }
    } else if v.len() == 3 {
        if is_hex_digit_char(v[0]) && is_hex_digit_char(v[1]) && is_hex_digit_char(v[2]) {
            Some(
                256 * (hex_value(v[0]) as u16) + 16 * (hex_value(v[1]) as u16) + hex_value(v[2])
                    as u16,
            )
        } else {
            None
        }
    } else if v.len() == 4 {
        if is_hex_digit_char(v[0]) && is_hex_digit_char(v[1]) && is_hex_digit_char(v[2])
            && is_hex_digit_char(v[3]) {
            Some(
                4096 * (hex_value(v[0]) as u16) + 256 * (hex_value(v[1]) as u16) + 16 * (hex_value(
                    v[2],
                ) as u16) + hex_value(v[3]) as u16,
            )
        } else {
            None
        }
    } else {
        None
    }
}

/// Parses dotted-quad IPv4 text.
pub fn parse_ipv4(v: &Vec<char>) -> (r: Option<u32>)
    ensures
        r == spec_parse_ipv4(v@),
{
    let n = v.len();
    let p1 = match find_from(v, '.', 0) {
        Some(p) => p,
        None => {
            return None;
        },
    };
    let p2 = match find_from(v, '.', p1 + 1) {
        Some(p) => p,
        None => {
            return None;
        },
    };
    let p3 = match find_from(v, '.', p2 + 1) {
        Some(p) => p,
        None => {
            return None;
        },
    };
    match find_from(v, '.', p3 + 1) {
        Some(_) => {
            return None;
        },
        None => {},
    }
    let a = match parse_octet(&subvec(v, 0, p1)) {
        Some(x) => x,
        None => {
            return None;
        },
    };
    let b = match parse_octet(&subvec(v, p1 + 1, p2)) {
        Some(x) => x,
        None => {
            return None;
        },
    };
    let c = match parse_octet(&subvec(v, p2 + 1, p3)) {
        Some(x) => x,
        None => {
            return None;
        },
    };
    let d = match parse_octet(&subvec(v, p3 + 1, n)) {
        Some(x) => x,
        None => {
            return None;
        },
    };
    Some((a as u32) * 0x1000000 + (b as u32) * 0x10000 + (c as u32) * 0x100 + d as u32)
}

/// The group values as mathematical integers.
pub open spec fn group_ints(gs: Seq<u16>) -> Seq<int> {
    gs.map_values(|g: u16| g as int)
}

/// Parses a non-empty colon-separated group list.
fn parse_groups(v: &Vec<char>, allow_v4: bool) -> (r: Option<Vec<u16>>)
    ensures
        match r {
            Some(gs) => spec_parse_groups(v@, allow_v4) == Some(group_ints(gs@)),
            None => spec_parse_groups(v@, allow_v4) is None,
        },
    decreases v@.len(),
{
    let n = v.len();
    if n == 0 {
        return None;
    }
    match find_from(v, ':', 0) {
        Some(p) => {
            if p == 0 {
                return None;
            }
            let head = subvec(v, 0, p);
            let g = match parse_hex_group(&head) {
                Some(g) => g,
                None => {
                    return None;
                },
            };
            let tail = subvec(v, p + 1, n);
            match parse_groups(&tail, allow_v4) {
                Some(rest) => {
                    let mut out: Vec<u16> = Vec::new();
                    out.push(g);
                    let mut rest = rest;
                    let ghost rest0 = rest@;
                    out.append(&mut rest);
                    assert(group_ints(out@) =~= seq![g as int] + group_ints(rest0));
                    Some(out)
                },
                None => None,
            }
        },
        None => {
            if allow_v4 && find_from(v, '.', 0).is_some() {
                match parse_ipv4(v) {
                    Some(val) => {
                        let mut out: Vec<u16> = Vec::new();
                        out.push((val / 0x10000) as u16);
                        out.push((val % 0x10000) as u16);
                        assert(group_ints(out@) =~= seq![
                            val as int / 0x10000,
                            val as int % 0x10000,
                        ]);
                        Some(out)
                    },
                    None => None,
                }
            } else {
                match parse_hex_group(v) {
                    Some(g) => {
                        let mut out: Vec<u16> = Vec::new();
                        out.push(g);
                        assert(group_ints(out@) =~= seq![g as int]);
                        Some(out)
                    },
                    None => None,
                }
            }
        },
    }
}

/// The 128-bit value of eight 16-bit groups.
fn groups_value(gs: &Vec<u16>) -> (r: u128)
    requires
        gs@.len() == 8,
    ensures
        r == spec_groups_value(group_ints(gs@)),
{
    let mut x: u128 = gs[0] as u128;
    x = x * 0x10000 + gs[1] as u128;
    x = x * 0x10000 + gs[2] as u128;
    x = x * 0x10000 + gs[3] as u128;
    x = x * 0x10000 + gs[4] as u128;
    x = x * 0x10000 + gs[5] as u128;
    x = x * 0x10000 + gs[6] as u128;
    x = x * 0x10000 + gs[7] as u128;
    x
}

/// Parses IPv6 text.
#[verifier::rlimit(100)]
pub fn parse_ipv6(v: &Vec<char>) -> (r: Option<u128>)
    ensures
        r == spec_parse_ipv6(v@),
{
    let n = v.len();
    match find_double_colon(v, 0) {
        None => {
            match parse_groups(v, true) {
                Some(gs) => {
                    if gs.len() == 8 {
                        Some(groups_value(&gs))
                    } else {
                        None
                    }
                },
                None => None,
            }
        },
        Some(p) => {
            let left = subvec(v, 0, p);
            let right = subvec(v, p + 2, n);
            let l = if left.len() == 0 {
                Vec::new()
            } else {
                match parse_groups(&left, false) {
                    Some(l) => l,
                    None => {
                        return None;
                    },
                }
            };
            let r = if right.len() == 0 {
                Vec::new()
            } else {
                match parse_groups(&right, true) {
                    Some(r) => r,
                    None => {
                        return None;
                    },
                }
            };
            if l.len() <= 7 && r.len() <= 7 - l.len() {
                let fill = 8 - l.len() - r.len();
                let mut full = l;
                let mut k: usize = 0;
                let ghost l0 = full@;
                while k < fill
                    invariant
                        k <= fill,
                        full@ == l0 + Seq::new(k as nat, |i: int| 0u16),
                    decreases fill - k,
                {
                    full.push(0u16);
                    assert(full@ =~= l0 + Seq::new((k + 1) as nat, |i: int| 0u16));
                    k = k + 1;
                }
                let mut rr = r;
                let ghost r0 = rr@;
                full.append(&mut rr);
                assert(group_ints(full@) =~= group_ints(l0) + Seq::new(
                    fill as nat,
                    |i: int| 0int,
                ) + group_ints(r0));
                Some(groups_value(&full))
            } else {
                None
            }
        },
    }
}

/// Parses an IP address token: dotted-quad IPv4 text or IPv6 text.
pub fn parse_ip_chars(v: &Vec<char>) -> (r: Option<IpAddress>)
    ensures
        r == spec_parse_ip(v@),
{
    match parse_ipv4(v) {
        Some(x) => Some(IpAddress::V4(x)),
        None => {
            match parse_ipv6(v) {
                Some(x) => Some(IpAddress::V6(x)),
                None => None,
            }
        },
    }
}

/// Parses an IP address from text.
pub fn parse_ip(s: &str) -> (r: Option<IpAddress>)
    ensures
        r == spec_parse_ip(s@),
{
    let v = crate::text::chars_of(s);
    parse_ip_chars(&v)
}

} // verus!
