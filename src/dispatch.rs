//! The request entry point: framing, routing and execution against the store.

use vstd::prelude::*;

use crate::codec::{error_line, length_value, simple_line, UtilityStruct};
use crate::command::{ascii_lower, is_word, set_parse, SetCommand};
use crate::error::{get_error_message, key_not_found_prefix, RequestError};
use crate::store::{Entries, Store};
use crate::tokens::{bulk_at, lemma_split_nonempty, split_message, split_tokens, TokenCursor};

verus! {

/// What a request comes to, as text.
pub enum Outcome {
    /// A reply line to send as it is.
    Reply(Seq<char>),
    /// An invalid request, with its cause.
    Invalid(Seq<char>),
    /// A `GET` of an absent key, with the key.
    KeyMissing(Seq<char>),
}

/// The outcome that a result of `process_message` stands for.
pub open spec fn outcome_of(r: Result<String, RequestError>) -> Outcome {
    match r {
        Ok(s) => Outcome::Reply(s@),
        Err(RequestError::InvalidRequest(m)) => Outcome::Invalid(m@),
        Err(RequestError::KeyNotFound(k)) => Outcome::KeyMissing(k@),
    }
}

/// The line sent back for an outcome.
pub open spec fn reply_text(o: Outcome) -> Seq<char> {
    match o {
        Outcome::Reply(s) => s,
        Outcome::Invalid(m) => error_line(m),
        Outcome::KeyMissing(k) => error_line(key_not_found_prefix() + k),
    }
}

/// The cause given for a request that does not start with `*`.
pub open spec fn format_msg() -> Seq<char> {
    "Invalid message format"@
}

/// The cause given when the declared element count is wrong.
pub open spec fn array_length_msg() -> Seq<char> {
    "Invalid array length"@
}

/// The cause given for an unknown verb.
pub open spec fn not_found_msg(verb: Seq<char>) -> Seq<char> {
    "Command "@ + verb + " not found"@
}

/// The request starts with the array marker.
pub open spec fn framed(raw: Seq<char>) -> bool {
    raw.len() > 0 && raw[0] == '*'
}

/// The declared element count agrees with the number of tokens: a header,
/// then two tokens for each element (a trailing empty token does not count).
pub open spec fn count_agrees(toks: Seq<Seq<char>>) -> bool {
    length_value(toks[0]) == (toks.len() - 1) / 2
}

/// The verb of a request whose framing and count are valid, or the cause of failure.
pub open spec fn verb_of(raw: Seq<char>) -> Result<Seq<char>, Seq<char>> {
    let toks = split_tokens(raw);
    if !framed(raw) {
        Err(format_msg())
    } else if !count_agrees(toks) {
        Err(array_length_msg())
    } else {
        bulk_at(toks, 1)
    }
}

/// What the command named `verb`, with its arguments in `toks`, comes to
/// against the entries `m`.
pub open spec fn command_outcome(toks: Seq<Seq<char>>, verb: Seq<char>, m: Entries) -> Outcome {
    let name = ascii_lower(verb);
    if name == "ping"@ {
        Outcome::Reply(simple_line("PONG"@))
    } else if name == "echo"@ {
        match bulk_at(toks, 3) {
            Err(cause) => Outcome::Invalid(cause),
            Ok(text) => Outcome::Reply(simple_line(text)),
        }
    } else if name == "set"@ {
        match set_parse(toks, 3) {
            Err(cause) => Outcome::Invalid(cause),
            Ok(_) => Outcome::Reply(simple_line("OK"@)),
        }
    } else if name == "get"@ {
        match bulk_at(toks, 3) {
            Err(cause) => Outcome::Invalid(cause),
            Ok(key) => if m.contains_key(key) {
                Outcome::Reply(simple_line(m[key]))
            } else {
                Outcome::KeyMissing(key)
            },
        }
    } else if name == "command"@ {
        Outcome::Reply(simple_line("OK"@))
    } else {
        Outcome::Invalid(not_found_msg(verb))
    }
}

/// What the request `raw` comes to against the entries `m`.
pub open spec fn request_outcome(raw: Seq<char>, m: Entries) -> Outcome {
    match verb_of(raw) {
        Err(cause) => Outcome::Invalid(cause),
        Ok(verb) => command_outcome(split_tokens(raw), verb, m),
    }
}

/// The entries after the request `raw`: a valid `SET` inserts or replaces
/// its key; every other request leaves them as they are.
pub open spec fn request_effect(raw: Seq<char>, m: Entries) -> Entries {
    let toks = split_tokens(raw);
    match verb_of(raw) {
        Ok(verb) => if ascii_lower(verb) == "set"@ {
            match set_parse(toks, 3) {
                Ok((key, value, _, _)) => m.insert(key, value),
                Err(_) => m,
            }
        } else {
            m
        },
        Err(_) => m,
    }
}

/// The verb names are distinct words.
pub proof fn lemma_verb_names_distinct()
    ensures
        "ping"@ != "set"@,
        "echo"@ != "set"@,
        "get"@ != "set"@,
        "command"@ != "set"@,
        "ping"@ != "get"@,
        "echo"@ != "get"@,
        "ping"@ != "echo"@,
{
    reveal_strlit("ping");
    reveal_strlit("echo");
    reveal_strlit("set");
    reveal_strlit("get");
    reveal_strlit("command");
    assert("ping"@.len() != "set"@.len());
    assert("echo"@.len() != "set"@.len());
    assert("get"@[0] != "set"@[0]);
    assert("command"@.len() != "set"@.len());
    assert("ping"@.len() != "get"@.len());
    assert("echo"@.len() != "get"@.len());
    assert("ping"@[0] != "echo"@[0]);
}

/// Parses one request, runs it against the store and returns the reply
/// line, or the error that stands in its place.
pub fn process_message(main_message: &str, store: &mut Store) -> (r: Result<String, RequestError>)
    ensures
        outcome_of(r) == request_outcome(main_message@, old(store)@),
        final(store)@ == request_effect(main_message@, old(store)@),
{
    if main_message.is_empty() || main_message.get_char(0) != '*' {
        return Err(RequestError::InvalidRequest(String::from_str("Invalid message format")));
    }
    let split = split_message(main_message);
    proof {
        lemma_split_nonempty(main_message@);
    }
    let length = UtilityStruct::parse_length(split[0].as_str());
    if length != (split.len() - 1) / 2 {
        return Err(RequestError::InvalidRequest(String::from_str("Invalid array length")));
    }
    proof {
        lemma_verb_names_distinct();
    }
    let mut cursor = TokenCursor::new(split);
    let _ = cursor.next_token();
    let command = match UtilityStruct::split_pair(&mut cursor) {
        Ok(command) => command,
        Err(e) => return Err(e),
    };
    if is_word(command.as_str(), "ping") {
        Ok(UtilityStruct::simple_string("PONG"))
    } else if is_word(command.as_str(), "echo") {
        match UtilityStruct::split_pair(&mut cursor) {
            Ok(text) => Ok(UtilityStruct::simple_string(text.as_str())),
            Err(e) => Err(e),
        }
    } else if is_word(command.as_str(), "set") {
        match SetCommand::new(&mut cursor) {
            Ok(set_command) => {
                store.set(set_command.key, set_command.value);
                Ok(UtilityStruct::simple_string("OK"))
            },
            Err(e) => Err(e),
        }
    } else if is_word(command.as_str(), "get") {
        match UtilityStruct::split_pair(&mut cursor) {
            Ok(key) => match store.get(key.as_str()) {
                Some(found) => Ok(UtilityStruct::simple_string(found.as_str())),
                None => Err(RequestError::KeyNotFound(key)),
            },
            Err(e) => Err(e),
        }
    } else if is_word(command.as_str(), "command") {
        Ok(UtilityStruct::simple_string("OK"))
    } else {
        let mut text = String::from_str("Command ");
        text.append(command.as_str());
        text.append(" not found");
        Err(RequestError::InvalidRequest(text))
    }
}

/// Runs one request and returns the line to send back, error or not.
pub fn respond(main_message: &str, store: &mut Store) -> (r: String)
    ensures
        r@ == reply_text(request_outcome(main_message@, old(store)@)),
        final(store)@ == request_effect(main_message@, old(store)@),
{
    match process_message(main_message, store) {
        Ok(reply) => reply,
        Err(e) => get_error_message(&e),
    }
}

} // verus!
