//! Splitting a request into tokens, and the forward-only cursor over them.

use vstd::prelude::*;

use vstd::utf8::encode_utf8;

use crate::codec::{chars_of, length_value};
use crate::error::RequestError;

verus! {

/// The views of a sequence of strings.
pub open spec fn views(v: Seq<String>) -> Seq<Seq<char>> {
    v.map_values(|t: String| t@)
}

/// `s` ends with the delimiter.
pub open spec fn ends_with_delim(s: Seq<char>) -> bool {
    s.len() >= 2 && s[s.len() - 2] == '\r' && s[s.len() - 1] == '\n'
}

/// The pieces of `s` between delimiters, in order. A delimiter at the very
/// end leaves an empty last piece; a text without delimiter is one piece.
pub open spec fn split_tokens(s: Seq<char>) -> Seq<Seq<char>>
    decreases s.len(),
{
    if s.len() == 0 {
        seq![Seq::empty()]
    } else if ends_with_delim(s) {
        split_tokens(s.subrange(0, s.len() - 2)).push(Seq::empty())
    } else {
        let t = split_tokens(s.drop_last());
        t.update(t.len() - 1, t.last().push(s.last()))
    }
}

/// There is always at least one piece.
pub proof fn lemma_split_nonempty(s: Seq<char>)
    ensures
        split_tokens(s).len() >= 1,
    decreases s.len(),
{
    if s.len() == 0 {
    } else if ends_with_delim(s) {
        lemma_split_nonempty(s.subrange(0, s.len() - 2));
    } else {
        lemma_split_nonempty(s.drop_last());
    }
}

/// Splits a request at every delimiter.
pub fn split_message(raw: &str) -> (r: Vec<String>)
    ensures
        views(r@) == split_tokens(raw@),
{
    let c = chars_of(raw);
    let n = c.len();
    let mut tokens: Vec<String> = Vec::new();
    let mut start: usize = 0;
    let mut i: usize = 0;
    assert(c@.subrange(0, 0) =~= Seq::<char>::empty());
    assert(views(tokens@) =~= Seq::<Seq<char>>::empty());
    assert(views(tokens@) + seq![c@.subrange(0, 0)] =~= split_tokens(c@.subrange(0, 0)));
    while i < n
        invariant
            n == c@.len(),
            c@ == raw@,
            start <= i <= n,
            views(tokens@) + seq![c@.subrange(start as int, i as int)] == split_tokens(
                c@.subrange(0, i as int),
            ),
            0 < i < n && c@[i - 1] == '\r' ==> c@[i as int] != '\n',
        decreases n - i,
    {
        let ghost before = c@.subrange(0, i as int);
        proof {
            lemma_split_nonempty(before);
        }
        if c[i] == '\r' && i + 1 < n && c[i + 1] == '\n' {
            let piece = raw.substring_char(start, i).to_owned();
            let ghost after = c@.subrange(0, i + 2);
            assert(after.subrange(0, after.len() - 2) =~= before);
            assert(ends_with_delim(after));
            let ghost old_views = views(tokens@);
            tokens.push(piece);
            assert(views(tokens@) =~= old_views.push(c@.subrange(start as int, i as int)));
            assert(c@.subrange(i + 2, i + 2) =~= Seq::<char>::empty());
            assert(views(tokens@) + seq![c@.subrange(i + 2, i + 2)] =~= split_tokens(after));
            i = i + 2;
            start = i;
        } else {
            let ghost after = c@.subrange(0, i + 1);
            assert(after.drop_last() =~= before);
            assert(!ends_with_delim(after));
            assert(c@.subrange(start as int, i + 1) =~= c@.subrange(start as int, i as int).push(
                c@[i as int],
            ));
            assert(views(tokens@) + seq![c@.subrange(start as int, i + 1)] =~= split_tokens(after));
            i = i + 1;
        }
    }
    assert(c@.subrange(0, n as int) =~= raw@);
    let ghost old_views = views(tokens@);
    tokens.push(raw.substring_char(start, n).to_owned());
    assert(views(tokens@) =~= old_views.push(c@.subrange(start as int, n as int)));
    tokens
}

/// A forward-only cursor over the tokens of a request.
pub struct TokenCursor {
    tokens: Vec<String>,
    pos: usize,
}

impl TokenCursor {
    /// The tokens the cursor walks over.
    pub closed spec fn tokens(&self) -> Seq<Seq<char>> {
        views(self.tokens@)
    }

    /// How many tokens have been consumed.
    pub closed spec fn position(&self) -> nat {
        self.pos as nat
    }

    /// The position lies within the tokens.
    pub closed spec fn wf(&self) -> bool {
        self.pos <= self.tokens@.len()
    }

    /// A cursor at the first token.
    pub fn new(tokens: Vec<String>) -> (r: Self)
        ensures
            r.wf(),
            r.tokens() == views(tokens@),
            r.position() == 0,
    {
        TokenCursor { tokens, pos: 0 }
    }

    /// How many tokens are left.
    pub fn remaining(&self) -> (r: usize)
        requires
            self.wf(),
        ensures
            r == self.tokens().len() - self.position(),
    {
        self.tokens.len() - self.pos
    }

    /// Takes the next token, if any is left.
    pub fn next_token(&mut self) -> (r: Option<String>)
        requires
            old(self).wf(),
        ensures
            final(self).wf(),
            final(self).tokens() == old(self).tokens(),
            old(self).position() < old(self).tokens().len() ==> {
                &&& r is Some
                &&& r->Some_0@ == old(self).tokens()[old(self).position() as int]
                &&& final(self).position() == old(self).position() + 1
            },
            old(self).position() >= old(self).tokens().len() ==> {
                &&& r is None
                &&& final(self).position() == old(self).position()
            },
    {
        if self.pos < self.tokens.len() {
            let t = self.tokens[self.pos].clone();
            self.pos = self.pos + 1;
            Some(t)
        } else {
            None
        }
    }
}

/// The length of `s` in bytes, once encoded.
pub open spec fn byte_len(s: Seq<char>) -> nat {
    encode_utf8(s).len()
}

/// The cause given when a request holds fewer tokens than it needs.
pub open spec fn insufficient_msg() -> Seq<char> {
    "Insufficient input"@
}

/// The cause given when a bulk string's header disagrees with its length.
pub open spec fn bulk_length_msg() -> Seq<char> {
    "Invalid bulk string length"@
}

/// The bulk string made of the header at `p` and the literal after it:
/// the literal, or the cause of failure.
pub open spec fn bulk_at(toks: Seq<Seq<char>>, p: int) -> Result<Seq<char>, Seq<char>> {
    if p + 2 > toks.len() {
        Err(insufficient_msg())
    } else if length_value(toks[p]) != byte_len(toks[p + 1]) {
        Err(bulk_length_msg())
    } else {
        Ok(toks[p + 1])
    }
}

/// `r` is the outcome that `bulk_at` describes.
pub open spec fn bulk_result(r: Result<String, RequestError>, expected: Result<Seq<char>, Seq<char>>) -> bool {
    match expected {
        Ok(lit) => r matches Ok(s) && s@ == lit,
        Err(cause) => r matches Err(RequestError::InvalidRequest(m)) && m@ == cause,
    }
}

} // verus!
