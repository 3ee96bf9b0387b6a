//! The wire form of a request: a header `*<n>`, then `$<len>` and the literal
//! for each element, each line ended by the delimiter.

use vstd::prelude::*;
use vstd::utf8::{encode_utf8, is_ascii_chars, is_ascii_chars_encode_utf8};

use crate::codec::{decimal_value, digit_value, is_digit, is_usize_text, length_value, unsigned_digits};
use crate::dispatch::{count_agrees, framed};
use crate::tokens::{bulk_at, byte_len, ends_with_delim, split_tokens};

verus! {

/// The digit character for `d < 10`.
pub open spec fn digit_char(d: nat) -> char {
    ((d + 48) as u8) as char
}

/// The decimal text of `n`, without leading zeros.
pub open spec fn decimal_text(n: nat) -> Seq<char>
    decreases n,
{
    if n < 10 {
        seq![digit_char(n)]
    } else {
        decimal_text(n / 10).push(digit_char(n % 10))
    }
}

/// A length header: a marker, then the decimal text of `n`.
pub open spec fn header(marker: char, n: nat) -> Seq<char> {
    seq![marker] + decimal_text(n)
}

/// `t` holds no delimiter.
pub open spec fn no_delim(t: Seq<char>) -> bool {
    forall|i: int| 0 <= i < t.len() - 1 ==> !(#[trigger] t[i] == '\r' && t[i + 1] == '\n')
}

/// The tokens joined, with a delimiter between each two.
pub open spec fn join(ts: Seq<Seq<char>>) -> Seq<char>
    decreases ts.len(),
{
    if ts.len() <= 1 {
        if ts.len() == 0 {
            Seq::empty()
        } else {
            ts[0]
        }
    } else {
        join(ts.drop_last()) + seq!['\r', '\n'] + ts.last()
    }
}

/// A length header and the literal, for each element in turn.
pub open spec fn bulk_tokens(args: Seq<Seq<char>>) -> Seq<Seq<char>>
    decreases args.len(),
{
    if args.len() == 0 {
        Seq::empty()
    } else {
        bulk_tokens(args.drop_last()) + seq![header('$', byte_len(args.last())), args.last()]
    }
}

/// The tokens of the request whose elements are `args`, with the empty
/// token that follows the final delimiter.
pub open spec fn request_tokens(args: Seq<Seq<char>>) -> Seq<Seq<char>> {
    seq![header('*', args.len())] + bulk_tokens(args) + seq![Seq::<char>::empty()]
}

/// The request whose elements are `args`, as sent on the wire.
pub open spec fn encode_request(args: Seq<Seq<char>>) -> Seq<char> {
    join(request_tokens(args))
}

/// Each element can stand in a request: it holds no delimiter, and its byte
/// length fits in `usize`.
pub open spec fn valid_elements(args: Seq<Seq<char>>) -> bool {
    forall|i: int| 0 <= i < args.len() ==> no_delim(#[trigger] args[i]) && byte_len(args[i]) <= usize::MAX
}

proof fn lemma_digit_char(d: nat)
    requires
        d < 10,
    ensures
        is_digit(digit_char(d)),
        digit_value(digit_char(d)) == d,
{
    let b = (d + 48) as u8;
    assert(b as char as u32 == b as u32);
}

/// The decimal text of `n` is made of digits and denotes `n`.
pub proof fn lemma_decimal_text(n: nat)
    ensures
        decimal_text(n).len() >= 1,
        forall|i: int| 0 <= i < decimal_text(n).len() ==> is_digit(#[trigger] decimal_text(n)[i]),
        decimal_value(decimal_text(n)) == n,
    decreases n,
{
    if n < 10 {
        lemma_digit_char(n);
        assert(decimal_text(n).drop_last() =~= Seq::<char>::empty());
        assert(decimal_value(Seq::<char>::empty()) == 0);
    } else {
        lemma_decimal_text(n / 10);
        lemma_digit_char(n % 10);
        assert(decimal_text(n).drop_last() =~= decimal_text(n / 10));
        assert((n / 10) * 10 + n % 10 == n);
    }
}

/// A header denotes the number it was written with.
pub proof fn lemma_header_value(marker: char, n: nat)
    requires
        n <= usize::MAX,
    ensures
        length_value(header(marker, n)) == n,
        no_delim(header(marker, n)),
{
    lemma_decimal_text(n);
    let h = header(marker, n);
    assert(h.drop_first() =~= decimal_text(n));
    assert(unsigned_digits(decimal_text(n)) == decimal_text(n));
    assert(is_usize_text(decimal_text(n)));
    assert forall|i: int| 0 <= i < h.len() - 1 implies !(#[trigger] h[i] == '\r' && h[i + 1] == '\n') by {
        assert(h[i + 1] == decimal_text(n)[i]);
    }
}

/// Appending text without a delimiter after a delimiter (or to nothing)
/// makes that text the last token.
proof fn lemma_split_append(s: Seq<char>, t: Seq<char>)
    requires
        s.len() == 0 || ends_with_delim(s),
        no_delim(t),
    ensures
        split_tokens(s + t) == split_tokens(s).update(split_tokens(s).len() - 1, t),
    decreases t.len(),
{
    let u = s + t;
    if s.len() == 0 {
        assert(split_tokens(s) == seq![Seq::<char>::empty()]);
    } else {
        assert(s.subrange(0, s.len() - 2) + seq!['\r', '\n'] =~= s);
        assert(split_tokens(s) == split_tokens(s.subrange(0, s.len() - 2)).push(Seq::empty()));
    }
    if t.len() == 0 {
        assert(u =~= s);
        assert(t =~= Seq::<char>::empty());
        assert(split_tokens(s).update(split_tokens(s).len() - 1, t) =~= split_tokens(s));
    } else {
        assert(!ends_with_delim(u)) by {
            if t.len() >= 2 {
                assert(u[u.len() - 2] == t[t.len() - 2]);
                assert(u[u.len() - 1] == t[t.len() - 1]);
            } else if s.len() > 0 {
                assert(u[u.len() - 2] == s[s.len() - 1]);
            }
        }
        let t0 = t.drop_last();
        assert(no_delim(t0)) by {
            assert forall|i: int| 0 <= i < t0.len() - 1 implies !(#[trigger] t0[i] == '\r' && t0[i + 1] == '\n') by {
                assert(t0[i] == t[i] && t0[i + 1] == t[i + 1]);
            }
        }
        lemma_split_append(s, t0);
        assert(u.drop_last() =~= s + t0);
        assert(t0.push(t.last()) =~= t);
        crate::tokens::lemma_split_nonempty(s);
        assert(split_tokens(u) =~= split_tokens(s).update(split_tokens(s).len() - 1, t));
    }
}

/// Splitting joined tokens gives them back, where none holds a delimiter.
pub proof fn lemma_split_join(ts: Seq<Seq<char>>)
    requires
        ts.len() >= 1,
        forall|i: int| 0 <= i < ts.len() ==> no_delim(#[trigger] ts[i]),
    ensures
        split_tokens(join(ts)) == ts,
    decreases ts.len(),
{
    if ts.len() == 1 {
        lemma_split_append(Seq::empty(), ts[0]);
        assert(Seq::<char>::empty() + ts[0] =~= ts[0]);
        assert(split_tokens(Seq::<char>::empty()) == seq![Seq::<char>::empty()]);
        assert(seq![Seq::<char>::empty()].update(0, ts[0]) =~= ts);
    } else {
        let init = ts.drop_last();
        assert forall|i: int| 0 <= i < init.len() implies no_delim(#[trigger] init[i]) by {
            assert(init[i] == ts[i]);
        }
        lemma_split_join(init);
        let j = join(init) + seq!['\r', '\n'];
        assert(ends_with_delim(j));
        assert(j.subrange(0, j.len() - 2) =~= join(init));
        assert(split_tokens(j) == init.push(Seq::empty()));
        assert(no_delim(ts[ts.len() - 1]));
        lemma_split_append(j, ts.last());
        assert(init.push(Seq::empty()).update(ts.len() - 1, ts.last()) =~= ts);
    }
}

/// The joined tokens start with the first token.
proof fn lemma_join_prefix(ts: Seq<Seq<char>>)
    requires
        ts.len() >= 1,
    ensures
        join(ts).len() >= ts[0].len(),
        forall|i: int| 0 <= i < ts[0].len() ==> join(ts)[i] == ts[0][i],
    decreases ts.len(),
{
    if ts.len() > 1 {
        lemma_join_prefix(ts.drop_last());
    }
}

/// The layout of the bulk tokens.
proof fn lemma_bulk_tokens(args: Seq<Seq<char>>)
    ensures
        bulk_tokens(args).len() == 2 * args.len(),
        forall|i: int|
            0 <= i < args.len() ==> bulk_tokens(args)[2 * i] == header('$', byte_len(#[trigger] args[i]))
                && bulk_tokens(args)[2 * i + 1] == args[i],
    decreases args.len(),
{
    if args.len() > 0 {
        let init = args.drop_last();
        lemma_bulk_tokens(init);
        assert forall|i: int| 0 <= i < args.len() implies bulk_tokens(args)[2 * i] == header('$', byte_len(#[trigger] args[i]))
            && bulk_tokens(args)[2 * i + 1] == args[i] by {
            if i < init.len() {
                assert(init[i] == args[i]);
            }
        }
    }
}

/// An encoded request splits into its tokens, is framed, declares the right
/// count, and holds each element as a bulk string at its place.
pub proof fn lemma_encode_request(args: Seq<Seq<char>>)
    requires
        args.len() <= usize::MAX,
        valid_elements(args),
    ensures
        split_tokens(encode_request(args)) == request_tokens(args),
        framed(encode_request(args)),
        count_agrees(request_tokens(args)),
        request_tokens(args).len() == 2 * args.len() + 2,
        forall|i: int| 0 <= i < args.len() ==> bulk_at(request_tokens(args), 2 * i + 1)
            == Ok::<Seq<char>, Seq<char>>(#[trigger] args[i]),
{
    let ts = request_tokens(args);
    lemma_bulk_tokens(args);
    lemma_header_value('*', args.len());
    assert forall|i: int| 0 <= i < ts.len() implies no_delim(#[trigger] ts[i]) by {
        if i == 0 {
            assert(ts[0] == header('*', args.len()));
        } else if i == ts.len() - 1 {
            assert(ts[i] == Seq::<char>::empty());
        } else {
            let k = (i - 1) / 2;
            assert(ts[i] == bulk_tokens(args)[i - 1]);
            assert(no_delim(args[k]) && byte_len(args[k]) <= usize::MAX);
            if (i - 1) % 2 == 0 {
                assert(i - 1 == 2 * k);
                lemma_header_value('$', byte_len(args[k]));
            } else {
                assert(i - 1 == 2 * k + 1);
            }
        }
    }
    lemma_split_join(ts);
    lemma_join_prefix(ts);
    assert forall|i: int| 0 <= i < args.len() implies bulk_at(ts, 2 * i + 1)
        == Ok::<Seq<char>, Seq<char>>(#[trigger] args[i]) by {
        assert(ts[2 * i + 1] == bulk_tokens(args)[2 * i]);
        assert(ts[2 * i + 2] == bulk_tokens(args)[2 * i + 1]);
        lemma_header_value('$', byte_len(args[i]));
    }
}

/// An ASCII text has as many bytes as characters.
pub proof fn lemma_ascii_byte_len(s: Seq<char>)
    requires
        is_ascii_chars(s),
    ensures
        byte_len(s) == s.len(),
{
    is_ascii_chars_encode_utf8(s);
}

} // verus!
