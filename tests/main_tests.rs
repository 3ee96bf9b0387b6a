use lite_cache::command::SetCommand;
use lite_cache::tokens::{split_message, TokenCursor};
use lite_cache::{get_error_message, process_message, respond, RequestError, Store};

fn invalid(message: &str) -> Result<String, RequestError> {
    Err(RequestError::InvalidRequest(message.to_string()))
}

#[test]
fn process_message_starts_with_tests() {
    let mut store = Store::new();
    assert_eq!(process_message("&t", &mut store), invalid("Invalid message format"));
    assert_eq!(respond("&t", &mut store), "-Invalid message format\r\n");
    assert_eq!(process_message("-t", &mut store), invalid("Invalid message format"));
    assert_eq!(respond("-t", &mut store), "-Invalid message format\r\n");
}

#[test]
fn process_message_invalid_array_length() {
    let mut store = Store::new();
    let first = "*3\r\n$4\r\necho\r\n$11\r\nhello world\r\n";
    assert_eq!(process_message(first, &mut store), invalid("Invalid array length"));
    assert_eq!(respond(first, &mut store), "-Invalid array length\r\n");
    let second = "*4\r\n$3\r\nget\r\n$3\r\nkey\r\n";
    assert_eq!(process_message(second, &mut store), invalid("Invalid array length"));
    assert_eq!(respond(second, &mut store), "-Invalid array length\r\n");
}

#[test]
fn process_message_echo_test() {
    let mut store = Store::new();
    assert_eq!(
        process_message("*2\r\n$4\r\necho\r\n$11\r\nhello world\r\n", &mut store),
        Ok("+hello world\r\n".to_string())
    );
    assert_eq!(
        process_message("*2\r\n$4\r\necho\r\n$19\r\nhello !@#$%^& world\r\n", &mut store),
        Ok("+hello !@#$%^& world\r\n".to_string())
    );
}

#[test]
fn process_message_ping_test() {
    let mut store = Store::new();
    assert_eq!(process_message("*1\r\n$4\r\nping\r\n", &mut store), Ok("+PONG\r\n".to_string()));
}

#[test]
fn process_invalid_bulk_string() {
    let mut store = Store::new();
    let request = "*2\r\n$3\r\necho\r\n$11\r\nhello world\r\n";
    assert_eq!(process_message(request, &mut store), invalid("Invalid bulk string length"));
    assert_eq!(respond(request, &mut store), "-Invalid bulk string length\r\n");
}

#[test]
fn process_message_command_not_found() {
    let mut store = Store::new();
    let request = "*1\r\n$4\r\nzzzz\r\n";
    assert_eq!(process_message(request, &mut store), invalid("Command zzzz not found"));
    assert_eq!(respond(request, &mut store), "-Command zzzz not found\r\n");
}

#[test]
fn process_message_set_get() {
    let mut store = Store::new();
    assert_eq!(
        process_message("*3\r\n$3\r\nset\r\n$7\r\ntestKey\r\n$9\r\ntestValue\r\n", &mut store),
        Ok("+OK\r\n".to_string())
    );
    assert_eq!(
        process_message("*2\r\n$3\r\nget\r\n$7\r\ntestKey\r\n", &mut store),
        Ok("+testValue\r\n".to_string())
    );
}

#[test]
fn verbs_ignore_ascii_case() {
    let mut store = Store::new();
    assert_eq!(respond("*1\r\n$4\r\nPiNG\r\n", &mut store), "+PONG\r\n");
    assert_eq!(respond("*2\r\n$4\r\nECHO\r\n$2\r\nhi\r\n", &mut store), "+hi\r\n");
    assert_eq!(respond("*1\r\n$7\r\nCOMMAND\r\n", &mut store), "+OK\r\n");
}

#[test]
fn get_of_unset_key_is_missing() {
    let mut store = Store::new();
    let request = "*2\r\n$3\r\nget\r\n$5\r\nnokey\r\n";
    assert_eq!(
        process_message(request, &mut store),
        Err(RequestError::KeyNotFound("nokey".to_string()))
    );
    assert_eq!(respond(request, &mut store), "-Error Key not found: nokey\r\n");
}

#[test]
fn set_overwrites_and_repeats_are_idempotent() {
    let mut store = Store::new();
    let set_a = "*3\r\n$3\r\nset\r\n$1\r\nk\r\n$1\r\na\r\n";
    let set_b = "*3\r\n$3\r\nSET\r\n$1\r\nk\r\n$2\r\nbb\r\n";
    let get = "*2\r\n$3\r\nget\r\n$1\r\nk\r\n";
    assert_eq!(respond(set_a, &mut store), "+OK\r\n");
    assert_eq!(respond(get, &mut store), "+a\r\n");
    assert_eq!(respond(set_b, &mut store), "+OK\r\n");
    assert_eq!(respond(get, &mut store), "+bb\r\n");
    assert_eq!(respond(set_b, &mut store), "+OK\r\n");
    assert_eq!(respond(get, &mut store), "+bb\r\n");
    assert_eq!(store.get("k"), Some("bb".to_string()));
    assert_eq!(store.get("other"), None);
}

#[test]
fn set_with_options_is_stored() {
    let mut store = Store::new();
    let request = "*4\r\n$3\r\nset\r\n$1\r\nk\r\n$1\r\nv\r\n$2\r\nNX\r\n";
    assert_eq!(respond(request, &mut store), "+OK\r\n");
    assert_eq!(store.get("k"), Some("v".to_string()));
}

#[test]
fn missing_tokens_are_insufficient_input() {
    let mut store = Store::new();
    assert_eq!(process_message("*0", &mut store), invalid("Insufficient input"));
    assert_eq!(process_message("*1\r\n$4\r\necho\r\n", &mut store), invalid("Insufficient input"));
    assert_eq!(respond("*1\r\n$3\r\nget\r\n", &mut store), "-Insufficient input\r\n");
}

#[test]
fn bulk_length_counts_bytes() {
    let mut store = Store::new();
    assert_eq!(respond("*2\r\n$4\r\necho\r\n$2\r\né\r\n", &mut store), "+é\r\n");
    assert_eq!(respond("*2\r\n$4\r\necho\r\n$1\r\né\r\n", &mut store), "-Invalid bulk string length\r\n");
}

#[test]
fn error_rendering() {
    assert_eq!(
        get_error_message(&RequestError::InvalidRequest("bad".to_string())),
        "-bad\r\n"
    );
    assert_eq!(
        get_error_message(&RequestError::KeyNotFound("k1".to_string())),
        "-Error Key not found: k1\r\n"
    );
}

#[test]
fn split_keeps_trailing_empty_token() {
    let tokens = split_message("*1\r\n$4\r\nping\r\n");
    assert_eq!(tokens, vec!["*1", "$4", "ping", ""]);
    assert_eq!(split_message("a\r\r\nb"), vec!["a\r", "b"]);
    assert_eq!(split_message(""), vec![""]);
}

#[test]
fn set_command_reads_flags() {
    let tokens = split_message("$1\r\nk\r\n$1\r\nv\r\n$2\r\nnx\r\n$2\r\nXx");
    let mut cursor = TokenCursor::new(tokens);
    let command = SetCommand::new(&mut cursor).unwrap();
    assert_eq!(command.key, "k");
    assert_eq!(command.value, "v");
    assert!(command.nx);
    assert!(command.xx);
    assert_eq!(cursor.remaining(), 0);

    let mut plain = TokenCursor::new(split_message("$1\r\nk\r\n$1\r\nv"));
    let command = SetCommand::new(&mut plain).unwrap();
    assert!(!command.nx);
    assert!(!command.xx);

    let mut short = TokenCursor::new(split_message("$1\r\nk"));
    assert!(matches!(SetCommand::new(&mut short), Err(RequestError::InvalidRequest(_))));
}
