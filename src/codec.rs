//! Encoding of replies and decoding of length headers.

use vstd::prelude::*;

use crate::error::RequestError;
use crate::tokens::{bulk_at, bulk_result, TokenCursor};

verus! {

/// The two-character sequence that ends every protocol line.
pub const DELIMITER: &'static str = "\r\n";

/// The delimiter as a sequence of characters.
pub open spec fn delim() -> Seq<char> {
    seq!['\r', '\n']
}

/// A reply line: a one-character marker, the payload, the delimiter.
pub open spec fn line(marker: char, payload: Seq<char>) -> Seq<char> {
    seq![marker] + payload + delim()
}

/// The encoding of a simple-string reply.
pub open spec fn simple_line(payload: Seq<char>) -> Seq<char> {
    line('+', payload)
}

/// The encoding of an error reply.
pub open spec fn error_line(payload: Seq<char>) -> Seq<char> {
    line('-', payload)
}

/// `c` is a decimal digit.
pub open spec fn is_digit(c: char) -> bool {
    '0' <= c <= '9'
}

/// The value of a decimal digit.
pub open spec fn digit_value(c: char) -> nat {
    (c as u32 - '0' as u32) as nat
}

/// The number that a string of decimal digits denotes.
pub open spec fn decimal_value(s: Seq<char>) -> nat
    decreases s.len(),
{
    if s.len() == 0 {
        0
    } else {
        decimal_value(s.drop_last()) * 10 + digit_value(s.last())
    }
}

/// The digits of an unsigned number, after its optional `+` sign.
pub open spec fn unsigned_digits(s: Seq<char>) -> Seq<char> {
    if s.len() > 0 && s[0] == '+' {
        s.drop_first()
    } else {
        s
    }
}

/// `s` is an optional `+` followed by one or more digits, and the number fits
/// in `usize`: the text that Rust's parsing of a `usize` accepts.
pub open spec fn is_usize_text(s: Seq<char>) -> bool {
    let d = unsigned_digits(s);
    &&& d.len() > 0
    &&& forall|i: int| 0 <= i < d.len() ==> is_digit(#[trigger] d[i])
    &&& decimal_value(d) <= usize::MAX
}

/// The number after the one-character marker of a length header (`*3`, `$11`);
/// a header without a valid unsigned number after its marker counts as zero.
pub open spec fn length_value(token: Seq<char>) -> nat {
    let body = token.drop_first();
    if token.len() > 0 && is_usize_text(body) {
        decimal_value(unsigned_digits(body))
    } else {
        0
    }
}

/// The characters of `s`, in order.
pub fn chars_of(s: &str) -> (r: Vec<char>)
    ensures
        r@ == s@,
{
    let mut r: Vec<char> = Vec::new();
    for c in it: s.chars()
        invariant
            r@ == it.seq().subrange(0, it.index() as int),
    {
        r.push(c);
    }
    r
}

/// Stateless codec helpers.
pub struct UtilityStruct;

impl UtilityStruct {
    /// The reserved null reply `_\r\n`.
    pub fn null() -> (r: String)
        ensures
            r@ == seq!['_'] + delim(),
    {
        proof {
            reveal_strlit("_");
            reveal_strlit("");
            reveal_strlit("\r\n");
        }
        Self::base_message("_", "", DELIMITER)
    }

    /// `+value\r\n`.
    pub fn simple_string(value: &str) -> (r: String)
        ensures
            r@ == simple_line(value@),
    {
        proof {
            reveal_strlit("+");
            reveal_strlit("\r\n");
        }
        Self::base_message("+", value, DELIMITER)
    }

    /// `-value\r\n`.
    pub fn error_message(value: &str) -> (r: String)
        ensures
            r@ == error_line(value@),
    {
        proof {
            reveal_strlit("-");
            reveal_strlit("\r\n");
        }
        Self::base_message("-", value, DELIMITER)
    }

    /// The number after the marker of a length header; zero where that is not
    /// a valid unsigned number (`*-1` included).
    pub fn parse_length(encoded: &str) -> (r: usize)
        ensures
            r == length_value(encoded@),
    {
        let c = chars_of(encoded);
        if c.len() == 0 {
            return 0;
        }
        let ghost body = c@.drop_first();
        let start: usize = if c.len() > 1 && c[1] == '+' { 2 } else { 1 };
        assert(unsigned_digits(body) =~= c@.subrange(start as int, c@.len() as int));
        if start >= c.len() {
            return 0;
        }
        let mut acc: usize = 0;
        let mut overflow = false;
        let mut i: usize = start;
        while i < c.len()
            invariant
                1 <= start <= i <= c@.len(),
                c@ == encoded@,
                body == c@.drop_first(),
                unsigned_digits(body) == c@.subrange(start as int, c@.len() as int),
                forall|j: int| start <= j < i ==> is_digit(#[trigger] c@[j]),
                !overflow ==> acc == decimal_value(c@.subrange(start as int, i as int)),
                overflow ==> decimal_value(c@.subrange(start as int, i as int)) > usize::MAX,
            decreases c.len() - i,
        {
            let ch = c[i];
            if !('0' <= ch && ch <= '9') {
                assert(!is_digit(unsigned_digits(body)[i - start as int]));
                return 0;
            }
            let d = (ch as u32 - '0' as u32) as usize;
            let ghost prefix = c@.subrange(start as int, i + 1);
            assert(prefix.drop_last() =~= c@.subrange(start as int, i as int));
            if !overflow {
                if acc > (usize::MAX - d) / 10 {
                    overflow = true;
                } else {
                    acc = acc * 10 + d;
                }
            }
            i = i + 1;
        }
        assert(c@.subrange(start as int, i as int) =~= unsigned_digits(body));
        if overflow {
            0
        } else {
            acc
        }
    }

    /// Consumes a length header and the literal after it, and returns the
    /// literal where its byte length is the one declared.
    pub fn split_pair(cursor: &mut TokenCursor) -> (r: Result<String, RequestError>)
        requires
            old(cursor).wf(),
        ensures
            final(cursor).wf(),
            final(cursor).tokens() == old(cursor).tokens(),
            bulk_result(r, bulk_at(old(cursor).tokens(), old(cursor).position() as int)),
            r is Ok ==> final(cursor).position() == old(cursor).position() + 2,
    {
        if cursor.remaining() < 2 {
            return Err(RequestError::InvalidRequest(String::from_str("Insufficient input")));
        }
        let header = cursor.next_token();
        let literal = cursor.next_token();
        match (header, literal) {
            (Some(header), Some(literal)) => {
                let declared = Self::parse_length(header.as_str());
                if declared != literal.as_str().as_bytes().len() {
                    return Err(
                        RequestError::InvalidRequest(String::from_str("Invalid bulk string length")),
                    );
                }
                Ok(literal)
            },
            _ => Err(RequestError::InvalidRequest(String::from_str("Insufficient input"))),
        }
    }

    fn base_message(marker: &str, value: &str, delimiter: &str) -> (r: String)
        ensures
            r@ == marker@ + value@ + delimiter@,
    {
        let mut r = String::from_str(marker);
        r.append(value);
        r.append(delimiter);
        r
    }
}

} // verus!
