use game_sync::content::{
    content_response, content_type_of, fallback_response, file_response, index_path, route, static_path, Route,
};
use game_sync::handshake::{Header, Request, Response};

fn header(name: &str, value: &str) -> Header {
    Header { name: name.as_bytes().to_vec(), value: value.as_bytes().to_vec() }
}

fn request(method: &str, path: &str, headers: Vec<Header>) -> Request {
    Request { method: method.to_string(), path: path.to_string(), headers }
}

fn upgrade_headers() -> Vec<Header> {
    vec![
        header("upgrade", "websocket"),
        header("connection", "Upgrade"),
        header("sec-websocket-key", "dGhlIHNhbXBsZSBub25jZQ=="),
    ]
}

fn pairs(response: &Response) -> Vec<(&str, &str)> {
    response.headers.iter().map(|h| (h.name.as_str(), h.value.as_str())).collect()
}

#[test]
fn each_extension_has_its_content_type() {
    assert_eq!(content_type_of(Some("html")), "text/html");
    assert_eq!(content_type_of(Some("css")), "text/css");
    assert_eq!(content_type_of(Some("js")), "application/javascript");
    assert_eq!(content_type_of(Some("wasm")), "application/wasm");
    assert_eq!(content_type_of(Some("json")), "application/json");
}

#[test]
fn any_other_extension_is_binary() {
    assert_eq!(content_type_of(Some("png")), "application/octet-stream");
    assert_eq!(content_type_of(Some("HTML")), "application/octet-stream");
    assert_eq!(content_type_of(Some("")), "application/octet-stream");
    assert_eq!(content_type_of(Some("htm")), "application/octet-stream");
}

#[test]
fn a_file_without_an_extension_is_binary() {
    assert_eq!(content_type_of(None), "application/octet-stream");
}

#[test]
fn the_root_path_stands_for_the_root_document() {
    assert_eq!(static_path("dist", "/"), "dist/index.html");
    assert_eq!(index_path("dist"), "dist/index.html");
    assert_eq!(index_path(""), "/index.html");
}

#[test]
fn any_other_path_stands_below_the_root() {
    assert_eq!(static_path("dist", "/app.js"), "dist/app.js");
    assert_eq!(static_path("dist", "/pkg/client_bg.wasm"), "dist/pkg/client_bg.wasm");
    assert_eq!(static_path("/srv/www", "/index.html"), "/srv/www/index.html");
    assert_eq!(static_path("dist", ""), "dist");
    assert_eq!(static_path("dist", "//"), "dist//");
}

#[test]
fn an_upgrade_at_the_channel_path_is_routed_to_the_upgrade() {
    match route(&request("GET", "/ws", upgrade_headers()), "dist") {
        Route::Upgrade { response } => {
            assert_eq!(response.status, 101);
            assert!(response.body.is_empty());
            assert_eq!(
                pairs(&response),
                vec![
                    ("upgrade", "websocket"),
                    ("connection", "upgrade"),
                    ("sec-websocket-accept", "s3pPLMBiTxaQ9kYGzzhZRbK+xOo="),
                ]
            );
        },
        other => panic!("unexpected {:?}", other),
    }
}

#[test]
fn an_upgrade_with_a_key_that_is_no_text_answers_for_the_empty_key() {
    let mut headers = upgrade_headers();
    headers[2] = Header { name: b"sec-websocket-key".to_vec(), value: vec![0xfe] };
    match route(&request("GET", "/ws", headers), "dist") {
        Route::Upgrade { response } => {
            assert_eq!(response.headers[2].value, "Kfh9QIsMVZcl6xEPYxPHzW8SZ8w=");
        },
        other => panic!("unexpected {:?}", other),
    }
}

#[test]
fn an_upgrade_at_another_path_is_served_a_file() {
    match route(&request("GET", "/chat", upgrade_headers()), "dist") {
        Route::Serve { file } => assert_eq!(file, "dist/chat"),
        other => panic!("unexpected {:?}", other),
    }
}

#[test]
fn a_plain_request_at_the_channel_path_is_served_a_file() {
    match route(&request("GET", "/ws", vec![header("host", "example.org")]), "dist") {
        Route::Serve { file } => assert_eq!(file, "dist/ws"),
        other => panic!("unexpected {:?}", other),
    }
    match route(&request("POST", "/ws", upgrade_headers()), "dist") {
        Route::Serve { file } => assert_eq!(file, "dist/ws"),
        other => panic!("unexpected {:?}", other),
    }
}

#[test]
fn a_plain_request_is_served_its_file() {
    match route(&request("GET", "/", vec![]), "dist") {
        Route::Serve { file } => assert_eq!(file, "dist/index.html"),
        other => panic!("unexpected {:?}", other),
    }
    match route(&request("GET", "/style.css", vec![]), "public") {
        Route::Serve { file } => assert_eq!(file, "public/style.css"),
        other => panic!("unexpected {:?}", other),
    }
}

#[test]
fn a_content_response_is_open_to_any_origin() {
    let response = content_response("text/css".to_string(), b"body {}".to_vec());
    assert_eq!(response.status, 200);
    assert_eq!(response.body, b"body {}".to_vec());
    assert_eq!(pairs(&response), vec![("content-type", "text/css"), ("access-control-allow-origin", "*")]);
}

#[test]
fn a_file_is_answered_by_its_extension() {
    let cases = [
        ("dist/index.html", "text/html"),
        ("dist/style.css", "text/css"),
        ("dist/app.js", "application/javascript"),
        ("dist/pkg/client_bg.wasm", "application/wasm"),
        ("dist/levels.json", "application/json"),
        ("dist/logo.png", "application/octet-stream"),
        ("dist/archive.tar.gz", "application/octet-stream"),
        ("dist/README", "application/octet-stream"),
        ("dist/LICENSE", "application/octet-stream"),
        ("dist/.hidden", "application/octet-stream"),
        ("dist.d/README", "application/octet-stream"),
    ];
    for (file, kind) in cases {
        let response = file_response(file, vec![1, 2, 3]);
        assert_eq!(response.status, 200);
        assert_eq!(response.body, vec![1, 2, 3]);
        assert_eq!(pairs(&response), vec![("content-type", kind), ("access-control-allow-origin", "*")], "{}", file);
    }
}

#[test]
fn a_missing_file_is_answered_by_the_root_document() {
    let response = fallback_response(Some(b"<html></html>".to_vec()));
    assert_eq!(response.status, 200);
    assert_eq!(response.body, b"<html></html>".to_vec());
    assert_eq!(pairs(&response), vec![("content-type", "text/html"), ("access-control-allow-origin", "*")]);
}

#[test]
fn a_missing_front_end_is_answered_by_a_notice() {
    let response = fallback_response(None);
    assert_eq!(response.status, 200);
    assert_eq!(response.body, b"<h1>Error: Frontend not built. Run 'npm run build' first.</h1>".to_vec());
    assert_eq!(pairs(&response), vec![("content-type", "text/html"), ("access-control-allow-origin", "*")]);
}
