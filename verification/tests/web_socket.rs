use makepad_core::web_socket::{
    connect_request, extract_uri, find_scheme_end, split_header, upgrade_accepted,
};

#[test]
fn uri_with_a_path() {
    assert_eq!(extract_uri("ws://127.0.0.1:8080/chat/room"), ("ws", "127.0.0.1:8080", "chat/room"));
}

#[test]
fn uri_without_a_path() {
    assert_eq!(extract_uri("wss://example.org"), ("wss", "example.org", ""));
    assert_eq!(extract_uri("wss://example.org/"), ("wss", "example.org", ""));
}

#[test]
fn uri_splits_at_the_first_separator() {
    assert_eq!(extract_uri("a://b://c/d"), ("a", "b:", "/c/d"));
    assert_eq!(extract_uri("://"), ("", "", ""));
    assert_eq!(extract_uri(":://x"), (":", "x", ""));
    assert_eq!(extract_uri("http:///x/y"), ("http", "", "x/y"));
}

#[test]
fn uri_with_characters_of_several_bytes() {
    assert_eq!(extract_uri("wß://hö.st/pä/th"), ("wß", "hö.st", "pä/th"));
}

#[test]
fn scheme_separator_is_found() {
    assert_eq!(find_scheme_end("ws://host"), Some(2));
    assert_eq!(find_scheme_end("ws:/host"), None);
    assert_eq!(find_scheme_end(""), None);
    assert_eq!(find_scheme_end("é://"), Some(1));
    assert_eq!(find_scheme_end("a:/:///"), Some(3));
}

#[test]
fn opening_request() {
    assert_eq!(
        connect_request("127.0.0.1:8080", "chat"),
        "GET /chat HTTP/1.1\r\nHost: 127.0.0.1:8080\r\nConnection: Upgrade\r\nUpgrade: websocket\r\nSec-WebSocket-Version: 13\r\nSec-WebSocket-Key: dGhlIHNhbXBsZSBub25jZQ==\r\n\r\n"
    );
}

#[test]
fn answer_to_the_opening_request() {
    assert!(upgrade_accepted("HTTP/1.1 101 Switching Protocols"));
    assert!(!upgrade_accepted("HTTP/1.1 200 OK"));
    assert!(!upgrade_accepted("HTTP/1.1 101 Switching Protocols "));
    assert!(!upgrade_accepted(""));
}

#[test]
fn header_lines() {
    assert_eq!(split_header("Upgrade: websocket"), Some(("Upgrade", "websocket")));
    assert_eq!(split_header("a: b: c"), Some(("a", "b: c")));
    assert_eq!(split_header(": "), Some(("", "")));
    assert_eq!(split_header("key:value"), None);
    assert_eq!(split_header(""), None);
    assert_eq!(split_header("ü: ö"), Some(("ü", "ö")));
}
