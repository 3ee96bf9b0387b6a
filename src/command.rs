//! Typed commands built from the tokens of a request.

use vstd::prelude::*;

use crate::codec::{chars_of, UtilityStruct};
use crate::error::RequestError;
use crate::tokens::{bulk_at, TokenCursor};

verus! {

/// `c` with an ASCII capital letter made small.
pub open spec fn lower_char(c: char) -> char {
    if 'A' <= c <= 'Z' {
        ((c as u8) + 32) as u8 as char
    } else {
        c
    }
}

/// `s` with every ASCII capital letter made small.
pub open spec fn ascii_lower(s: Seq<char>) -> Seq<char> {
    s.map_values(|c: char| lower_char(c))
}

fn to_lower_char(c: char) -> (r: char)
    ensures
        r == lower_char(c),
{
    if 'A' <= c && c <= 'Z' {
        ((c as u8) + 32) as char
    } else {
        c
    }
}

/// Whether `s` equals `word` once ASCII letters are made small.
pub fn is_word(s: &str, word: &str) -> (r: bool)
    ensures
        r == (ascii_lower(s@) == word@),
{
    let a = chars_of(s);
    let b = chars_of(word);
    if a.len() != b.len() {
        assert(ascii_lower(s@).len() != word@.len());
        return false;
    }
    let mut i: usize = 0;
    while i < a.len()
        invariant
            a@ == s@,
            b@ == word@,
            a@.len() == b@.len(),
            i <= a@.len(),
            forall|j: int| 0 <= j < i ==> lower_char(#[trigger] a@[j]) == b@[j],
        decreases a.len() - i,
    {
        if to_lower_char(a[i]) != b[i] {
            assert(ascii_lower(s@)[i as int] != word@[i as int]);
            return false;
        }
        i = i + 1;
    }
    assert(ascii_lower(s@) =~= word@);
    true
}

/// Some token from position `from` on is `word`, ignoring ASCII case.
pub open spec fn has_option(toks: Seq<Seq<char>>, from: int, word: Seq<char>) -> bool {
    exists|j: int| from <= j < toks.len() && ascii_lower(#[trigger] toks[j]) == word
}

/// A `SET` read from the tokens at `p`: key, value and the `NX` and `XX`
/// flags, or the cause of failure.
pub open spec fn set_parse(toks: Seq<Seq<char>>, p: int) -> Result<
    (Seq<char>, Seq<char>, bool, bool),
    Seq<char>,
> {
    match bulk_at(toks, p) {
        Err(cause) => Err(cause),
        Ok(key) => match bulk_at(toks, p + 2) {
            Err(cause) => Err(cause),
            Ok(value) => Ok(
                (key, value, has_option(toks, p + 4, "nx"@), has_option(toks, p + 4, "xx"@)),
            ),
        },
    }
}

/// A `SET` command. The `nx` and `xx` flags are recorded and not acted on.
pub struct SetCommand {
    pub key: String,
    pub value: String,
    pub nx: bool,
    pub xx: bool,
}

impl SetCommand {
    /// Reads the key and value pairs, then scans every token left for the
    /// `NX` and `XX` options; other tokens are passed over.
    pub fn new(message_iter: &mut TokenCursor) -> (r: Result<SetCommand, RequestError>)
        requires
            old(message_iter).wf(),
        ensures
            final(message_iter).wf(),
            final(message_iter).tokens() == old(message_iter).tokens(),
            match set_parse(old(message_iter).tokens(), old(message_iter).position() as int) {
                Ok((key, value, nx, xx)) => r matches Ok(c) && c.key@ == key && c.value@ == value
                    && c.nx == nx && c.xx == xx,
                Err(cause) => r matches Err(RequestError::InvalidRequest(m)) && m@ == cause,
            },
    {
        let ghost toks = message_iter.tokens();
        let ghost p = message_iter.position() as int;
        let key = match UtilityStruct::split_pair(message_iter) {
            Ok(key) => key,
            Err(e) => return Err(e),
        };
        let value = match UtilityStruct::split_pair(message_iter) {
            Ok(value) => value,
            Err(e) => return Err(e),
        };
        let mut com = SetCommand { key, value, nx: false, xx: false };
        while message_iter.remaining() > 0
            invariant
                message_iter.wf(),
                message_iter.tokens() == toks,
                p + 4 <= message_iter.position() <= toks.len(),
                com.key@ == bulk_at(toks, p)->Ok_0,
                com.value@ == bulk_at(toks, p + 2)->Ok_0,
                com.nx == exists|j: int|
                    p + 4 <= j < message_iter.position() && ascii_lower(#[trigger] toks[j])
                        == "nx"@,
                com.xx == exists|j: int|
                    p + 4 <= j < message_iter.position() && ascii_lower(#[trigger] toks[j])
                        == "xx"@,
            decreases toks.len() - message_iter.position(),
        {
            let ghost at = message_iter.position() as int;
            if let Some(option) = message_iter.next_token() {
                if is_word(option.as_str(), "nx") {
                    com.nx = true;
                }
                if is_word(option.as_str(), "xx") {
                    com.xx = true;
                }
                assert(toks[at] == option@);
            }
        }
        Ok(com)
    }
}

} // verus!
