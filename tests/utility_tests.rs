use lite_cache::tokens::{split_message, TokenCursor};
use lite_cache::{RequestError, UtilityStruct};

#[test]
fn simple_string_tests() {
    assert_eq!(UtilityStruct::simple_string("OK"), "+OK\r\n");
    assert_eq!(UtilityStruct::simple_string("Hello World"), "+Hello World\r\n");
}

#[test]
fn error_message_tests() {
    assert_eq!(UtilityStruct::error_message("Error"), "-Error\r\n");
    assert_eq!(UtilityStruct::error_message("Error message"), "-Error message\r\n");
}

#[test]
fn parse_array_length_tests() {
    assert_eq!(UtilityStruct::parse_length("*4"), 4);
    assert_eq!(UtilityStruct::parse_length("*15"), 15);
    assert_eq!(UtilityStruct::parse_length("*100"), 100);
    assert_eq!(UtilityStruct::parse_length("*-1"), 0);
}

#[test]
fn parse_length_edge_cases() {
    assert_eq!(UtilityStruct::parse_length(""), 0);
    assert_eq!(UtilityStruct::parse_length("*"), 0);
    assert_eq!(UtilityStruct::parse_length("$+7"), 7);
    assert_eq!(UtilityStruct::parse_length("$+"), 0);
    assert_eq!(UtilityStruct::parse_length("$1a"), 0);
    assert_eq!(UtilityStruct::parse_length("$007"), 7);
    assert_eq!(UtilityStruct::parse_length("$18446744073709551615"), usize::MAX);
    assert_eq!(UtilityStruct::parse_length("$99999999999999999999999"), 0);
}

#[test]
fn null_reply() {
    assert_eq!(UtilityStruct::null(), "_\r\n");
}

#[test]
fn split_pair_checks_length() {
    let mut cursor = TokenCursor::new(split_message("$4\r\necho\r\n$3\r\nabcd\r\n$2"));
    assert_eq!(UtilityStruct::split_pair(&mut cursor), Ok("echo".to_string()));
    assert_eq!(
        UtilityStruct::split_pair(&mut cursor),
        Err(RequestError::InvalidRequest("Invalid bulk string length".to_string()))
    );
    assert_eq!(
        UtilityStruct::split_pair(&mut cursor),
        Err(RequestError::InvalidRequest("Insufficient input".to_string()))
    );
}
