//! Character-level helpers for header values: whitespace trimming and
//! the unwrapping of quoted and bracketed tokens.

use vstd::prelude::*;

verus! {

/// The whitespace accepted around header tokens.
pub open spec fn is_space(c: char) -> bool {
    c == ' ' || c == '\t' || c == '\n' || c == '\r'
}

/// `t` without its leading whitespace.
pub open spec fn spec_trim_start(t: Seq<char>) -> Seq<char>
    decreases t.len(),
{
    if t.len() > 0 && is_space(t[0]) {
        spec_trim_start(t.drop_first())
    } else {
        t
    }
}

/// `t` without its trailing whitespace.
pub open spec fn spec_trim_end(t: Seq<char>) -> Seq<char>
    decreases t.len(),
{
    if t.len() > 0 && is_space(t.last()) {
        spec_trim_end(t.drop_last())
    } else {
        t
    }
}

/// `t` without surrounding whitespace.
pub open spec fn spec_trim(t: Seq<char>) -> Seq<char> {
    spec_trim_end(spec_trim_start(t))
}

/// The body of a quoted token, read from position `i` up to the first
/// unescaped closing quote: a backslash makes the next character
/// content, a closing quote ends the body, and an unterminated quote
/// or trailing backslash ends it at the end of the input.
pub open spec fn spec_unquote_body(t: Seq<char>, i: nat) -> Seq<char>
    decreases t.len() - i,
{
    if i >= t.len() {
        Seq::empty()
    } else if t[i as int] == '"' {
        Seq::empty()
    } else if t[i as int] == '\\' {
        if i + 1 < t.len() {
            seq![t[i as int + 1]] + spec_unquote_body(t, i + 2)
        } else {
            Seq::empty()
        }
    } else {
        seq![t[i as int]] + spec_unquote_body(t, i + 1)
    }
}

/// A token that begins with a double quote is replaced by its unescaped
/// quoted body; any other token is kept as it is.
pub open spec fn spec_unquote(t: Seq<char>) -> Seq<char> {
    if t.len() > 0 && t[0] == '"' {
        spec_unquote_body(t, 1)
    } else {
        t
    }
}

/// A token exactly wrapped in `[` and `]` loses that pair; any other
/// token is kept as it is.
pub open spec fn spec_unbracket(t: Seq<char>) -> Seq<char> {
    if t.len() >= 2 && t[0] == '[' && t.last() == ']' {
        t.subrange(1, t.len() - 1)
    } else {
        t
    }
}

/// Relies on `String: FromIterator<char>`: collecting characters yields
/// the string of exactly those characters in order.
#[verifier::external_body]
pub fn string_from_chars(v: Vec<char>) -> (r: String)
    ensures
        r@ == v@,
{
    v.into_iter().collect()
}

/// The characters of `s` as a vector.
pub fn chars_of(s: &str) -> (r: Vec<char>)
    ensures
        r@ == s@,
{
    let n = s.unicode_len();
    let mut r: Vec<char> = Vec::new();
    let mut i: usize = 0;
    while i < n
        invariant
            n == s@.len(),
            i <= n,
            r@ == s@.subrange(0, i as int),
        decreases n - i,
    {
        r.push(s.get_char(i));
        assert(r@ =~= s@.subrange(0, i + 1));
        i = i + 1;
    }
    assert(r@ =~= s@);
    r
}

/// Strips surrounding whitespace.
pub fn trim(x: &str) -> (r: &str)
    ensures
        r@ == spec_trim(x@),
{
    let n = x.unicode_len();
    let mut a: usize = 0;
    assert(x@.skip(0) =~= x@);
    while a < n && is_space_char(x.get_char(a))
        invariant
            n == x@.len(),
            a <= n,
            spec_trim_start(x@) == spec_trim_start(x@.skip(a as int)),
        decreases n - a,
    {
        proof {
            assert(x@.skip(a as int).drop_first() =~= x@.skip(a + 1));
        }
        a = a + 1;
    }
    proof {
        if a < n {
            assert(!is_space(x@.skip(a as int)[0]));
        }
        assert(spec_trim_start(x@) == x@.skip(a as int));
    }
    let mut b: usize = n;
    while b > a && is_space_char(x.get_char(b - 1))
        invariant
            n == x@.len(),
            a <= b <= n,
            spec_trim_start(x@) == x@.skip(a as int),
            spec_trim_end(x@.skip(a as int)) == spec_trim_end(x@.subrange(a as int, b as int)),
        decreases b,
    {
        proof {
            assert(x@.subrange(a as int, b as int).last() == x@[b - 1]);
            assert(x@.subrange(a as int, b as int).drop_last() =~= x@.subrange(a as int, b - 1));
        }
        b = b - 1;
    }
    proof {
        if b > a {
            assert(x@.subrange(a as int, b as int).last() == x@[b - 1]);
        }
        assert(spec_trim_end(x@.subrange(a as int, b as int)) == x@.subrange(a as int, b as int));
    }
    x.substring_char(a, b)
}

/// Strips surrounding whitespace from a character vector.
pub fn trim_chars(v: &Vec<char>) -> (r: Vec<char>)
    ensures
        r@ == spec_trim(v@),
{
    let n = v.len();
    let mut a: usize = 0;
    assert(v@.skip(0) =~= v@);
    while a < n && is_space_char(v[a])
        invariant
            n == v@.len(),
            a <= n,
            spec_trim_start(v@) == spec_trim_start(v@.skip(a as int)),
        decreases n - a,
    {
        proof {
            assert(v@.skip(a as int).drop_first() =~= v@.skip(a + 1));
        }
        a = a + 1;
    }
    proof {
        if a < n {
            assert(!is_space(v@.skip(a as int)[0]));
        }
        assert(spec_trim_start(v@) == v@.skip(a as int));
    }
    let mut b: usize = n;
    while b > a && is_space_char(v[b - 1])
        invariant
            n == v@.len(),
            a <= b <= n,
            spec_trim_start(v@) == v@.skip(a as int),
            spec_trim_end(v@.skip(a as int)) == spec_trim_end(v@.subrange(a as int, b as int)),
        decreases b,
    {
        proof {
            assert(v@.subrange(a as int, b as int).last() == v@[b - 1]);
            assert(v@.subrange(a as int, b as int).drop_last() =~= v@.subrange(a as int, b - 1));
        }
        b = b - 1;
    }
    proof {
        if b > a {
            assert(v@.subrange(a as int, b as int).last() == v@[b - 1]);
        }
        assert(spec_trim_end(v@.subrange(a as int, b as int)) == v@.subrange(a as int, b as int));
    }
    let mut r: Vec<char> = Vec::new();
    let mut j: usize = a;
    while j < b
        invariant
            a <= j <= b <= v@.len(),
            r@ == v@.subrange(a as int, j as int),
        decreases b - j,
    {
        r.push(v[j]);
        assert(r@ =~= v@.subrange(a as int, j + 1));
        j = j + 1;
    }
    r
}

/// Unwraps a double-quoted token held as characters, collapsing `\x`
/// escapes; one that does not begin with a quote is returned unchanged.
pub fn unquote_chars(v: &Vec<char>) -> (r: Vec<char>)
    ensures
        r@ == spec_unquote(v@),
{
    let n = v.len();
    if n > 0 && v[0] == '"' {
        let mut out: Vec<char> = Vec::new();
        let mut i: usize = 1;
        while i < n
            invariant_except_break
                n == v@.len(),
                1 <= i <= n,
                spec_unquote_body(v@, 1) == out@ + spec_unquote_body(v@, i as nat),
            ensures
                spec_unquote_body(v@, 1) == out@,
            decreases n - i,
        {
            let c = v[i];
            if c == '"' {
                assert(spec_unquote_body(v@, i as nat) =~= Seq::<char>::empty());
                assert(spec_unquote_body(v@, 1) =~= out@);
                break;
            } else if c == '\\' {
                if i + 1 < n {
                    out.push(v[i + 1]);
                    i = i + 2;
                } else {
                    assert(spec_unquote_body(v@, i as nat) =~= Seq::<char>::empty());
                    i = n;
                }
            } else {
                out.push(c);
                i = i + 1;
            }
            proof {
                if i >= n {
                    assert(spec_unquote_body(v@, i as nat) =~= Seq::<char>::empty());
                }
            }
        }
        out
    } else {
        let mut out: Vec<char> = Vec::new();
        let mut i: usize = 0;
        while i < n
            invariant
                n == v@.len(),
                i <= n,
                out@ == v@.subrange(0, i as int),
            decreases n - i,
        {
            out.push(v[i]);
            assert(out@ =~= v@.subrange(0, i + 1));
            i = i + 1;
        }
        assert(out@ =~= v@);
        out
    }
}

/// Whether the character counts as surrounding whitespace.
pub fn is_space_char(c: char) -> (r: bool)
    ensures
        r == is_space(c),
{
    c == ' ' || c == '\t' || c == '\n' || c == '\r'
}

/// Unwraps a double-quoted token, collapsing `\x` escapes; a token that
/// does not begin with a quote is returned unchanged.
pub fn maybe_quoted(x: &str) -> (r: String)
    ensures
        r@ == spec_unquote(x@),
{
    let n = x.unicode_len();
    if n > 0 && x.get_char(0) == '"' {
        let mut out: Vec<char> = Vec::new();
        let mut i: usize = 1;
        while i < n
            invariant_except_break
                n == x@.len(),
                1 <= i <= n,
                spec_unquote_body(x@, 1) == out@ + spec_unquote_body(x@, i as nat),
            ensures
                spec_unquote_body(x@, 1) == out@,
            decreases n - i,
        {
            let c = x.get_char(i);
            if c == '"' {
                assert(spec_unquote_body(x@, i as nat) =~= Seq::<char>::empty());
                assert(spec_unquote_body(x@, 1) =~= out@);
                break;
            } else if c == '\\' {
                if i + 1 < n {
                    out.push(x.get_char(i + 1));
                    i = i + 2;
                } else {
                    assert(spec_unquote_body(x@, i as nat) =~= Seq::<char>::empty());
                    i = n;
                }
            } else {
                out.push(c);
                i = i + 1;
            }
            proof {
                if i >= n {
                    assert(spec_unquote_body(x@, i as nat) =~= Seq::<char>::empty());
                }
            }
        }
        string_from_chars(out)
    } else {
        String::from_str(x)
    }
}

/// The unescaped body of a quote-free, escape-free text followed by a
/// closing quote is that text itself.
proof fn lemma_unquote_body_plain(w: Seq<char>, t: Seq<char>, i: int)
    requires
        w == seq!['"'] + t + seq!['"'],
        1 <= i <= t.len() + 1,
        forall|k: int| 0 <= k < t.len() ==> t[k] != '"' && #[trigger] t[k] != '\\',
    ensures
        spec_unquote_body(w, i as nat) == t.skip(i - 1),
    decreases t.len() + 1 - i,
{
    if i == t.len() + 1 {
        assert(w[i] == '"');
        assert(t.skip(i - 1) =~= Seq::<char>::empty());
    } else {
        assert(w[i] == t[i - 1]);
        lemma_unquote_body_plain(w, t, i + 1);
        assert(seq![t[i - 1]] + t.skip(i) =~= t.skip(i - 1));
    }
}

/// Quote round-trip: wrapping a text that holds no quote and no
/// backslash in double quotes and unwrapping it again gives the text
/// back unchanged.
pub proof fn lemma_quote_round_trip(t: Seq<char>)
    requires
        forall|k: int| 0 <= k < t.len() ==> t[k] != '"' && #[trigger] t[k] != '\\',
    ensures
        spec_unquote(seq!['"'] + t + seq!['"']) == t,
{
    let w = seq!['"'] + t + seq!['"'];
    assert(w[0] == '"');
    lemma_unquote_body_plain(w, t, 1);
    assert(t.skip(0) =~= t);
}

/// Bracket round-trip: wrapping any text in a bracket pair and
/// unwrapping it again gives the text back unchanged.
pub proof fn lemma_bracket_round_trip(t: Seq<char>)
    ensures
        spec_unbracket(seq!['['] + t + seq![']']) == t,
{
    let w = seq!['['] + t + seq![']'];
    assert(w[0] == '[');
    assert(w.last() == ']');
    assert(w.subrange(1, w.len() - 1) =~= t);
}

/// Unwraps a token exactly wrapped in a bracket pair, as used for IPv6
/// literals; any other token is returned unchanged.
pub fn maybe_bracketed(x: &str) -> (r: &str)
    ensures
        r@ == spec_unbracket(x@),
{
    let n = x.unicode_len();
    if n >= 2 && x.get_char(0) == '[' && x.get_char(n - 1) == ']' {
        x.substring_char(1, n - 1)
    } else {
        x
    }
}

} // verus!
