//! Properties of the request protocol, proved over the dispatcher's model.

use vstd::prelude::*;

use crate::codec::{length_value, simple_line};
use crate::command::{ascii_lower, set_parse};
use crate::dispatch::{
    array_length_msg, count_agrees, format_msg, framed, lemma_verb_names_distinct, request_effect,
    request_outcome, verb_of, Outcome,
};
use crate::store::Entries;
use crate::tokens::{bulk_at, bulk_length_msg, byte_len, split_tokens};
use crate::wire::{
    encode_request, lemma_ascii_byte_len, lemma_encode_request, no_delim, valid_elements,
};

verus! {

/// `raw` is a well-framed request whose verb, ignoring ASCII case, is `name`.
pub open spec fn is_command(raw: Seq<char>, name: Seq<char>) -> bool {
    verb_of(raw) is Ok && ascii_lower(verb_of(raw)->Ok_0) == name
}

/// `raw` is a `SET` of `key` to `value`.
pub open spec fn is_set_of(raw: Seq<char>, key: Seq<char>, value: Seq<char>) -> bool {
    &&& is_command(raw, "set"@)
    &&& set_parse(split_tokens(raw), 3) is Ok
    &&& set_parse(split_tokens(raw), 3)->Ok_0.0 == key
    &&& set_parse(split_tokens(raw), 3)->Ok_0.1 == value
}

/// `raw` is a `GET` of `key`.
pub open spec fn is_get_of(raw: Seq<char>, key: Seq<char>) -> bool {
    is_command(raw, "get"@) && bulk_at(split_tokens(raw), 3) == Ok::<Seq<char>, Seq<char>>(key)
}

/// `raw` is a `SET` of `key`, to whatever value.
pub open spec fn sets_key(raw: Seq<char>, key: Seq<char>) -> bool {
    exists|value: Seq<char>| is_set_of(raw, key, value)
}

/// The entries after running `reqs` in order, starting from `m`.
pub open spec fn run(reqs: Seq<Seq<char>>, m: Entries) -> Entries
    decreases reqs.len(),
{
    if reqs.len() == 0 {
        m
    } else {
        request_effect(reqs.last(), run(reqs.drop_last(), m))
    }
}

/// A request whose token count is `2n + 1` but whose header declares another
/// count `declared` is rejected as an invalid array length, and changes nothing.
pub proof fn law_array_length_mismatch(raw: Seq<char>, n: nat, declared: nat, m: Entries)
    requires
        framed(raw),
        split_tokens(raw).len() == 2 * n + 1,
        length_value(split_tokens(raw)[0]) == declared,
        declared != n,
    ensures
        request_outcome(raw, m) == Outcome::Invalid(array_length_msg()),
        request_effect(raw, m) == m,
{
    assert(!count_agrees(split_tokens(raw)));
}

/// A bulk string whose header disagrees with the byte length of its literal
/// is refused as an invalid bulk string length.
pub proof fn law_bulk_length_mismatch(toks: Seq<Seq<char>>, p: int)
    requires
        0 <= p,
        p + 2 <= toks.len(),
        length_value(toks[p]) != byte_len(toks[p + 1]),
    ensures
        bulk_at(toks, p) == Err::<Seq<char>, Seq<char>>(bulk_length_msg()),
{
}

/// In particular, a well-framed request whose verb header disagrees with the
/// verb's byte length fails as an invalid bulk string length.
pub proof fn law_verb_length_mismatch(raw: Seq<char>, m: Entries)
    requires
        framed(raw),
        count_agrees(split_tokens(raw)),
        split_tokens(raw).len() >= 3,
        length_value(split_tokens(raw)[1]) != byte_len(split_tokens(raw)[2]),
    ensures
        request_outcome(raw, m) == Outcome::Invalid(bulk_length_msg()),
        request_effect(raw, m) == m,
{
}

/// `SET key value` followed by `GET key` replies with exactly `value`.
pub proof fn law_set_then_get(set_req: Seq<char>, get_req: Seq<char>, key: Seq<char>, value: Seq<char>, m: Entries)
    requires
        is_set_of(set_req, key, value),
        is_get_of(get_req, key),
    ensures
        request_outcome(get_req, request_effect(set_req, m)) == Outcome::Reply(simple_line(value)),
{
    lemma_verb_names_distinct();
}

/// A `GET` of a key that no earlier request set fails with that key missing.
pub proof fn law_get_unset_key(reqs: Seq<Seq<char>>, get_req: Seq<char>, key: Seq<char>)
    requires
        forall|i: int| 0 <= i < reqs.len() ==> !sets_key(#[trigger] reqs[i], key),
        is_get_of(get_req, key),
    ensures
        request_outcome(get_req, run(reqs, Entries::empty())) == Outcome::KeyMissing(key),
{
    lemma_verb_names_distinct();
    lemma_run_without_key(reqs, key);
}

/// Requests that do not set `key` leave it absent from an empty start.
pub proof fn lemma_run_without_key(reqs: Seq<Seq<char>>, key: Seq<char>)
    requires
        forall|i: int| 0 <= i < reqs.len() ==> !sets_key(#[trigger] reqs[i], key),
    ensures
        !run(reqs, Entries::empty()).contains_key(key),
    decreases reqs.len(),
{
    if reqs.len() > 0 {
        let init = reqs.drop_last();
        assert forall|i: int| 0 <= i < init.len() implies !sets_key(#[trigger] init[i], key) by {
            assert(init[i] == reqs[i]);
        }
        lemma_run_without_key(init, key);
        let last = reqs.last();
        assert(!sets_key(reqs[reqs.len() - 1], key));
        let before = run(init, Entries::empty());
        let toks = split_tokens(last);
        if verb_of(last) is Ok && ascii_lower(verb_of(last)->Ok_0) == "set"@ && set_parse(toks, 3) is Ok {
            let v = set_parse(toks, 3)->Ok_0.1;
            if set_parse(toks, 3)->Ok_0.0 == key {
                assert(is_set_of(last, key, v));
            }
        }
    }
}

/// A well-framed `PING` always replies `+PONG\r\n`.
pub proof fn law_ping(raw: Seq<char>, m: Entries)
    requires
        is_command(raw, "ping"@),
    ensures
        request_outcome(raw, m) == Outcome::Reply(simple_line("PONG"@)),
        request_effect(raw, m) == m,
{
    lemma_verb_names_distinct();
}

/// `ECHO msg` replies `+msg\r\n`, whatever characters `msg` holds.
pub proof fn law_echo(raw: Seq<char>, msg: Seq<char>, m: Entries)
    requires
        is_command(raw, "echo"@),
        bulk_at(split_tokens(raw), 3) == Ok::<Seq<char>, Seq<char>>(msg),
    ensures
        request_outcome(raw, m) == Outcome::Reply(simple_line(msg)),
        request_effect(raw, m) == m,
{
    lemma_verb_names_distinct();
}

/// A request that does not start with `*` is refused as an invalid message
/// format, whatever follows, and changes nothing.
pub proof fn law_unframed(raw: Seq<char>, m: Entries)
    requires
        !framed(raw),
    ensures
        request_outcome(raw, m) == Outcome::Invalid(format_msg()),
        request_effect(raw, m) == m,
{
}

/// Running the same request twice changes the entries no more than running
/// it once; in particular a repeated `SET k v` leaves them as they were.
pub proof fn law_repeat_idempotent(raw: Seq<char>, m: Entries)
    ensures
        request_effect(raw, request_effect(raw, m)) == request_effect(raw, m),
{
    let toks = split_tokens(raw);
    if verb_of(raw) is Ok && ascii_lower(verb_of(raw)->Ok_0) == "set"@ && set_parse(toks, 3) is Ok {
        let (k, v, _, _) = set_parse(toks, 3)->Ok_0;
        assert(m.insert(k, v).insert(k, v) =~= m.insert(k, v));
    }
}

/// Over the wire, `SET key value` replies `+OK\r\n`, and a `GET key` after it
/// replies with exactly `value`, for any key and value free of the delimiter.
pub proof fn law_wire_set_then_get(key: Seq<char>, value: Seq<char>, m: Entries)
    requires
        no_delim(key),
        no_delim(value),
        byte_len(key) <= usize::MAX,
        byte_len(value) <= usize::MAX,
    ensures
        request_outcome(encode_request(seq!["set"@, key, value]), m) == Outcome::Reply(
            simple_line("OK"@),
        ),
        request_outcome(
            encode_request(seq!["get"@, key]),
            request_effect(encode_request(seq!["set"@, key, value]), m),
        ) == Outcome::Reply(simple_line(value)),
{
    lemma_verb_names_distinct();
    let set_args = seq!["set"@, key, value];
    let get_args = seq!["get"@, key];
    lemma_word("set"@);
    lemma_word("get"@);
    assert(set_args[0] == "set"@ && set_args[1] == key && set_args[2] == value);
    assert(get_args[0] == "get"@ && get_args[1] == key);
    assert(valid_elements(set_args));
    assert(valid_elements(get_args));
    lemma_encode_request(set_args);
    lemma_encode_request(get_args);
    law_set_then_get(encode_request(set_args), encode_request(get_args), key, value, m);
}

/// Over the wire, `GET key` on entries without `key` fails with `key` missing.
pub proof fn law_wire_get_missing(key: Seq<char>, m: Entries)
    requires
        no_delim(key),
        byte_len(key) <= usize::MAX,
        !m.contains_key(key),
    ensures
        request_outcome(encode_request(seq!["get"@, key]), m) == Outcome::KeyMissing(key),
{
    lemma_verb_names_distinct();
    let args = seq!["get"@, key];
    lemma_word("get"@);
    assert(args[0] == "get"@ && args[1] == key);
    assert(valid_elements(args));
    lemma_encode_request(args);
}

/// Over the wire, `PING` replies `+PONG\r\n`.
pub proof fn law_wire_ping(m: Entries)
    ensures
        request_outcome(encode_request(seq!["ping"@]), m) == Outcome::Reply(simple_line("PONG"@)),
{
    let args = seq!["ping"@];
    lemma_word("ping"@);
    assert(args[0] == "ping"@);
    assert(valid_elements(args));
    lemma_encode_request(args);
    law_ping(encode_request(args), m);
}

/// Over the wire, `ECHO msg` replies `+msg\r\n` for any `msg` free of the delimiter.
pub proof fn law_wire_echo(msg: Seq<char>, m: Entries)
    requires
        no_delim(msg),
        byte_len(msg) <= usize::MAX,
    ensures
        request_outcome(encode_request(seq!["echo"@, msg]), m) == Outcome::Reply(simple_line(msg)),
{
    let args = seq!["echo"@, msg];
    lemma_word("echo"@);
    assert(args[0] == "echo"@ && args[1] == msg);
    assert(valid_elements(args));
    lemma_encode_request(args);
    law_echo(encode_request(args), msg, m);
}

/// A verb name is its own small-letter form, holds no delimiter, and has as
/// many bytes as characters.
proof fn lemma_word(w: Seq<char>)
    requires
        w == "set"@ || w == "get"@ || w == "ping"@ || w == "echo"@,
    ensures
        ascii_lower(w) == w,
        no_delim(w),
        byte_len(w) == w.len(),
        w.len() <= 4,
{
    reveal_strlit("set");
    reveal_strlit("get");
    reveal_strlit("ping");
    reveal_strlit("echo");
    assert(forall|i: int| 0 <= i < w.len() ==> 'a' <= #[trigger] w[i] <= 'z');
    assert(ascii_lower(w) =~= w);
    lemma_ascii_byte_len(w);
}

} // verus!
