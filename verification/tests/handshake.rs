use game_sync::handshake::{
    accept_for, calculate_websocket_accept, is_websocket_upgrade, upgrade_response, websocket_key, Header, Request,
};

fn header(name: &str, value: &str) -> Header {
    Header { name: name.as_bytes().to_vec(), value: value.as_bytes().to_vec() }
}

fn upgrade_request() -> Request {
    Request {
        method: "GET".to_string(),
        path: "/ws".to_string(),
        headers: vec![
            header("host", "example.org"),
            header("upgrade", "websocket"),
            header("connection", "Upgrade"),
            header("sec-websocket-key", "dGhlIHNhbXBsZSBub25jZQ=="),
        ],
    }
}

#[test]
fn accept_token_of_the_sample_key() {
    assert_eq!(calculate_websocket_accept("dGhlIHNhbXBsZSBub25jZQ=="), "s3pPLMBiTxaQ9kYGzzhZRbK+xOo=");
}

#[test]
fn accept_token_of_the_empty_key() {
    assert_eq!(calculate_websocket_accept(""), "Kfh9QIsMVZcl6xEPYxPHzW8SZ8w=");
}

#[test]
fn accept_token_from_bytes_is_the_same() {
    assert_eq!(accept_for(b"dGhlIHNhbXBsZSBub25jZQ=="), calculate_websocket_accept("dGhlIHNhbXBsZSBub25jZQ=="));
    assert_ne!(accept_for(b"x3JJHMbDL1EzLkh9GBhXDw=="), calculate_websocket_accept("dGhlIHNhbXBsZSBub25jZQ=="));
    assert_eq!(accept_for(b"x3JJHMbDL1EzLkh9GBhXDw=="), "HSmrc0sMlYUkAGmm5OPpG2HaGWk=");
}

#[test]
fn accept_token_has_28_characters() {
    assert_eq!(calculate_websocket_accept("any key at all").len(), 28);
}

#[test]
fn a_complete_request_asks_for_the_upgrade() {
    assert!(is_websocket_upgrade(&upgrade_request()));
}

#[test]
fn header_names_match_in_any_case() {
    let mut request = upgrade_request();
    request.headers = vec![
        header("Upgrade", "websocket"),
        header("CONNECTION", "keep-alive, Upgrade"),
        header("Sec-WebSocket-Key", "abc"),
    ];
    assert!(is_websocket_upgrade(&request));
}

#[test]
fn another_method_does_not_ask_for_the_upgrade() {
    let mut request = upgrade_request();
    request.method = "POST".to_string();
    assert!(!is_websocket_upgrade(&request));
}

#[test]
fn the_protocol_is_taken_to_the_letter() {
    let mut request = upgrade_request();
    request.headers[1] = header("upgrade", "WebSocket");
    assert!(!is_websocket_upgrade(&request));
    request.headers[1] = header("upgrade", "h2c");
    assert!(!is_websocket_upgrade(&request));
}

#[test]
fn a_missing_header_does_not_ask_for_the_upgrade() {
    for missing in 1..4 {
        let mut request = upgrade_request();
        request.headers.remove(missing);
        assert!(!is_websocket_upgrade(&request));
    }
}

#[test]
fn the_connection_header_must_mention_the_upgrade() {
    let mut request = upgrade_request();
    request.headers[2] = header("connection", "keep-alive");
    assert!(!is_websocket_upgrade(&request));
    request.headers[2] = header("connection", "upgrad");
    assert!(!is_websocket_upgrade(&request));
    request.headers[2] = header("connection", "xxUPGRADExx");
    assert!(is_websocket_upgrade(&request));
}

#[test]
fn a_connection_header_that_is_no_text_does_not_count() {
    let mut request = upgrade_request();
    request.headers[2] = Header { name: b"connection".to_vec(), value: vec![0xff, b'u', b'p', b'g', b'r', b'a', b'd', b'e'] };
    assert!(!is_websocket_upgrade(&request));
}

#[test]
fn the_first_header_of_a_name_decides() {
    let mut request = upgrade_request();
    request.headers.insert(0, header("upgrade", "h2c"));
    assert!(!is_websocket_upgrade(&request));
}

#[test]
fn the_key_is_the_header_as_it_came() {
    assert_eq!(websocket_key(&upgrade_request()), b"dGhlIHNhbXBsZSBub25jZQ==".to_vec());
}

#[test]
fn a_key_that_is_no_text_counts_as_empty() {
    let mut request = upgrade_request();
    request.headers[3] = Header { name: b"sec-websocket-key".to_vec(), value: vec![0x80, 0x81] };
    assert!(is_websocket_upgrade(&request));
    assert_eq!(websocket_key(&request), Vec::<u8>::new());
}

#[test]
fn the_answer_switches_protocols_and_carries_the_token() {
    let response = upgrade_response("s3pPLMBiTxaQ9kYGzzhZRbK+xOo=".to_string());
    assert_eq!(response.status, 101);
    assert!(response.body.is_empty());
    let headers: Vec<(String, String)> = response.headers.into_iter().map(|h| (h.name, h.value)).collect();
    assert_eq!(
        headers,
        vec![
            ("upgrade".to_string(), "websocket".to_string()),
            ("connection".to_string(), "upgrade".to_string()),
            ("sec-websocket-accept".to_string(), "s3pPLMBiTxaQ9kYGzzhZRbK+xOo=".to_string()),
        ]
    );
}
