//! The comma-separated list scanner: a single-pass state machine over a
//! header value that yields the list entries as slices of the input.
//!
//! A quoted entry keeps its surrounding quote marks (unwrapping is a
//! separate step), a comma inside quotes does not split, and anything
//! between a closing quote and the next comma is discarded.

use vstd::prelude::*;

verus! {

/// The scanner state.
#[derive(Clone, Copy, PartialEq, Eq, Structural, Debug)]
pub enum CommaSeparatedIteratorState {
    /// Skipping whitespace before an entry.
    Default,
    /// Inside a quoted entry.
    Quoted,
    /// Inside a quoted entry, immediately after a backslash.
    QuotedPair,
    /// Inside an unquoted entry.
    Token,
    /// After a closing quote, discarding up to the next comma.
    PostAmbleForQuoted,
}

/// The entries still to be produced by a scan of `s` standing at
/// position `i` in state `state`, with the current entry begun at
/// `start`. At the end of the input an entry still in progress is
/// flushed.
pub open spec fn spec_tokens_from(
    s: Seq<char>,
    i: nat,
    state: CommaSeparatedIteratorState,
    start: nat,
) -> Seq<Seq<char>>
    decreases s.len() - i,
{
    if i >= s.len() {
        match state {
            CommaSeparatedIteratorState::Token
            | CommaSeparatedIteratorState::Quoted
            | CommaSeparatedIteratorState::QuotedPair => seq![
                s.subrange(start as int, s.len() as int),
            ],
            _ => Seq::empty(),
        }
    } else {
        let c = s[i as int];
        match state {
            CommaSeparatedIteratorState::Default => {
                if c == '"' {
                    spec_tokens_from(s, i + 1, CommaSeparatedIteratorState::Quoted, i)
                } else if c == ' ' || c == '\t' {
                    spec_tokens_from(s, i + 1, CommaSeparatedIteratorState::Default, start)
                } else if c == ',' {
                    seq![Seq::<char>::empty()] + spec_tokens_from(
                        s,
                        i + 1,
                        CommaSeparatedIteratorState::Default,
                        start,
                    )
                } else {
                    spec_tokens_from(s, i + 1, CommaSeparatedIteratorState::Token, i)
                }
            },
            CommaSeparatedIteratorState::Token => {
                if c == ',' {
                    seq![s.subrange(start as int, i as int)] + spec_tokens_from(
                        s,
                        i + 1,
                        CommaSeparatedIteratorState::Default,
                        start,
                    )
                } else {
                    spec_tokens_from(s, i + 1, CommaSeparatedIteratorState::Token, start)
                }
            },
            CommaSeparatedIteratorState::Quoted => {
                if c == '"' {
                    seq![s.subrange(start as int, i as int + 1)] + spec_tokens_from(
                        s,
                        i + 1,
                        CommaSeparatedIteratorState::PostAmbleForQuoted,
                        start,
                    )
                } else if c == '\\' {
                    spec_tokens_from(s, i + 1, CommaSeparatedIteratorState::QuotedPair, start)
                } else {
                    spec_tokens_from(s, i + 1, CommaSeparatedIteratorState::Quoted, start)
                }
            },
            CommaSeparatedIteratorState::QuotedPair => {
                spec_tokens_from(s, i + 1, CommaSeparatedIteratorState::Quoted, start)
            },
            CommaSeparatedIteratorState::PostAmbleForQuoted => {
                if c == ',' {
                    spec_tokens_from(s, i + 1, CommaSeparatedIteratorState::Default, start)
                } else {
                    spec_tokens_from(s, i + 1, CommaSeparatedIteratorState::PostAmbleForQuoted, start)
                }
            },
        }
    }
}

/// The comma-separated entries of a whole header value.
pub open spec fn spec_comma_tokens(s: Seq<char>) -> Seq<Seq<char>> {
    spec_tokens_from(s, 0, CommaSeparatedIteratorState::Default, 0)
}

/// From inside the quotes of a quote-free, escape-free body, the scan
/// runs to the closing quote and yields the whole quoted text.
proof fn lemma_tokens_from_quoted(w: Seq<char>, t: Seq<char>, i: int)
    requires
        w == seq!['"'] + t + seq!['"'],
        1 <= i <= t.len() + 1,
        forall|k: int| 0 <= k < t.len() ==> t[k] != '"' && #[trigger] t[k] != '\\',
    ensures
        spec_tokens_from(w, i as nat, CommaSeparatedIteratorState::Quoted, 0) == seq![w],
    decreases t.len() + 1 - i,
{
    if i == t.len() + 1 {
        assert(w[i] == '"');
        assert(w.subrange(0, i + 1) =~= w);
        assert(seq![w] + spec_tokens_from(
            w,
            (i + 1) as nat,
            CommaSeparatedIteratorState::PostAmbleForQuoted,
            0,
        ) =~= seq![w]);
    } else {
        assert(w[i] == t[i - 1]);
        lemma_tokens_from_quoted(w, t, i + 1);
    }
}

/// A comma inside quotes is no delimiter: a header value that is one
/// quoted entry whose body holds no quote and no backslash — commas
/// included — scans as that single entry.
pub proof fn lemma_quoted_value_is_one_entry(t: Seq<char>)
    requires
        forall|k: int| 0 <= k < t.len() ==> t[k] != '"' && #[trigger] t[k] != '\\',
    ensures
        spec_comma_tokens(seq!['"'] + t + seq!['"']) == seq![seq!['"'] + t + seq!['"']],
{
    let w = seq!['"'] + t + seq!['"'];
    assert(w[0] == '"');
    lemma_tokens_from_quoted(w, t, 1);
}

/// The comma-separated list scanner over a borrowed header value.
pub struct CommaSeparatedIterator<'a> {
    /// The scanned header value.
    pub target: &'a str,
    /// The position of the next character to read, as a character index.
    pub pos: usize,
    /// The current scanner state.
    pub state: CommaSeparatedIteratorState,
    /// Where the entry in progress began, as a character index.
    pub start: usize,
}

impl<'a> CommaSeparatedIterator<'a> {
    /// The positions are in range; the entry start never passes the cursor.
    pub open spec fn wf(self) -> bool {
        self.start <= self.pos <= self.target@.len()
    }

    /// The entries this scanner has yet to produce.
    pub open spec fn remaining(self) -> Seq<Seq<char>> {
        spec_tokens_from(self.target@, self.pos as nat, self.state, self.start as nat)
    }

    /// A fresh scanner over `target`, about to produce all its entries.
    pub fn new(target: &'a str) -> (r: Self)
        ensures
            r.wf(),
            r.target@ == target@,
            r.remaining() == spec_comma_tokens(target@),
    {
        Self { target, pos: 0, state: CommaSeparatedIteratorState::Default, start: 0 }
    }

    /// The next list entry: the head of `remaining()`, or `None` once
    /// the input is exhausted.
    #[verifier::loop_isolation(false)]
    pub fn next(&mut self) -> (r: Option<&'a str>)
        requires
            old(self).wf(),
        ensures
            final(self).wf(),
            final(self).target@ == old(self).target@,
            match r {
                Some(tok) => old(self).remaining().len() > 0 && tok@ == old(self).remaining()[0]
                    && final(self).remaining() == old(self).remaining().drop_first(),
                None => old(self).remaining().len() == 0 && final(self).remaining().len() == 0,
            },
    {
        let t: &'a str = self.target;
        let n = t.unicode_len();
        let ghost orig = *self;
        while self.pos < n
            invariant
                self.target == orig.target,
                n == t@.len(),
                t == orig.target,
                self.wf(),
                self.remaining() == orig.remaining(),
            decreases n - self.pos,
        {
            let i = self.pos;
            let c = t.get_char(i);
            match self.state {
                CommaSeparatedIteratorState::Default => {
                    if c == '"' {
                        self.start = i;
                        self.state = CommaSeparatedIteratorState::Quoted;
                        self.pos = i + 1;
                    } else if c == ' ' || c == '\t' {
                        self.pos = i + 1;
                    } else if c == ',' {
                        let tok = t.substring_char(i, i);
                        self.pos = i + 1;
                        assert(tok@ =~= Seq::<char>::empty());
                        assert(tok@ == orig.remaining()[0]);
                        assert(self.remaining() =~= orig.remaining().drop_first());
                        return Some(tok);
                    } else {
                        self.start = i;
                        self.state = CommaSeparatedIteratorState::Token;
                        self.pos = i + 1;
                    }
                },
                CommaSeparatedIteratorState::Token => {
                    if c == ',' {
                        let tok = t.substring_char(self.start, i);
                        self.state = CommaSeparatedIteratorState::Default;
                        self.pos = i + 1;
                        assert(tok@ == orig.remaining()[0]);
                        assert(self.remaining() =~= orig.remaining().drop_first());
                        return Some(tok);
                    } else {
                        self.pos = i + 1;
                    }
                },
                CommaSeparatedIteratorState::Quoted => {
                    if c == '"' {
                        let tok = t.substring_char(self.start, i + 1);
                        self.state = CommaSeparatedIteratorState::PostAmbleForQuoted;
                        self.pos = i + 1;
                        assert(tok@ == orig.remaining()[0]);
                        assert(self.remaining() =~= orig.remaining().drop_first());
                        return Some(tok);
                    } else if c == '\\' {
                        self.state = CommaSeparatedIteratorState::QuotedPair;
                        self.pos = i + 1;
                    } else {
                        self.pos = i + 1;
                    }
                },
                CommaSeparatedIteratorState::QuotedPair => {
                    self.state = CommaSeparatedIteratorState::Quoted;
                    self.pos = i + 1;
                },
                CommaSeparatedIteratorState::PostAmbleForQuoted => {
                    if c == ',' {
                        self.state = CommaSeparatedIteratorState::Default;
                    }
                    self.pos = i + 1;
                },
            }
        }
        match self.state {
            CommaSeparatedIteratorState::Default | CommaSeparatedIteratorState::PostAmbleForQuoted => {
                None
            },
            _ => {
                let tok = t.substring_char(self.start, n);
                self.state = CommaSeparatedIteratorState::Default;
                assert(tok@ == orig.remaining()[0]);
                assert(self.remaining() =~= orig.remaining().drop_first());
                Some(tok)
            },
        }
    }
}

} // verus!
