//! What becomes of a request: the upgrade, or a file of the front end.
//!
//! The library reads no file. It says which file a path stands for, and
//! makes the response from what whoever holds the files found there.

use vstd::prelude::*;
use vstd::string::*;
use std::path::Path;
use crate::handshake::{
    accept_for, accept_token, is_upgrade_response, is_websocket_upgrade, key_of, upgrade_requested, upgrade_response,
    websocket_key, Request, Response, ResponseHeader,
};

verus! {

/// The status of a response that carries a file.
pub const OK: u16 = 200;

/// What to do with a request.
#[derive(Debug)]
pub enum Route {
    /// Upgrade the connection, and answer with this response.
    Upgrade { response: Response },
    /// Answer with this file.
    Serve { file: String },
}

/// The file that a path stands for under the root of the front end: the
/// root document for `/`, and else the path below the root.
pub open spec fn static_file(root: Seq<char>, path: Seq<char>) -> Seq<char> {
    if path == "/"@ {
        index_file(root)
    } else {
        root + path
    }
}

/// The root document of the front end.
pub open spec fn index_file(root: Seq<char>) -> Seq<char> {
    root + "/index.html"@
}

/// The content type that goes with a file's extension. A file with any
/// other extension, or with none, is taken for binary data.
pub open spec fn content_type(extension: Option<Seq<char>>) -> Seq<char> {
    match extension {
        None => "application/octet-stream"@,
        Some(e) => if e == "html"@ {
            "text/html"@
        } else if e == "css"@ {
            "text/css"@
        } else if e == "js"@ {
            "application/javascript"@
        } else if e == "wasm"@ {
            "application/wasm"@
        } else if e == "json"@ {
            "application/json"@
        } else {
            "application/octet-stream"@
        },
    }
}

/// Whether the request is one to upgrade: it asks for the upgrade, at the
/// path of the message channel.
pub open spec fn wants_upgrade(request: &Request) -> bool {
    request.path@ == "/ws"@ && upgrade_requested(request)
}

/// Whether the response carries `body` as content of the type `kind`, for
/// any origin to read.
pub open spec fn is_content_response(response: &Response, kind: Seq<char>, body: Seq<u8>) -> bool {
    &&& response.status == OK
    &&& response.body@ == body
    &&& response.headers@.len() == 2
    &&& response.headers@[0].name@ == "content-type"@
    &&& response.headers@[0].value@ == kind
    &&& response.headers@[1].name@ == "access-control-allow-origin"@
    &&& response.headers@[1].value@ == "*"@
}

/// The page that is served where the front end is not there.
pub open spec fn missing_page() -> Seq<u8> {
    "<h1>Error: Frontend not built. Run 'npm run build' first.</h1>".spec_bytes()
}

/// `Path::extension` of the path, where that is text. Nothing is claimed
/// of it: where the name of a file starts in a path is the platform's matter.
#[verifier::external_body]
fn path_extension(path: &str) -> (extension: Option<String>) {
    Path::new(path).extension().and_then(|e| e.to_str()).map(|e| e.to_string())
}

/// The root document of the front end.
pub fn index_path(root: &str) -> (file: String)
    ensures
        file@ == index_file(root@),
{
    String::from_str(root).concat("/index.html")
}

/// The file that a path stands for under the root of the front end.
pub fn static_path(root: &str, path: &str) -> (file: String)
    ensures
        file@ == static_file(root@, path@),
{
    if String::from_str(path) == String::from_str("/") {
        index_path(root)
    } else {
        String::from_str(root).concat(path)
    }
}

/// Decides what to do with a request: the upgrade where it wants one, with
/// the response that carries the accept token for its key; and else the file
/// that its path stands for.
pub fn route(request: &Request, root: &str) -> (route: Route)
    ensures
        wants_upgrade(request) ==> route is Upgrade && is_upgrade_response(
            &route->response,
            accept_token(key_of(request)),
        ),
        !wants_upgrade(request) ==> route is Serve && route->file@ == static_file(root@, request.path@),
{
    if request.path == String::from_str("/ws") && is_websocket_upgrade(request) {
        let key = websocket_key(request);
        let accept = accept_for(key.as_slice());
        Route::Upgrade { response: upgrade_response(accept) }
    } else {
        Route::Serve { file: static_path(root, request.path.as_str()) }
    }
}

/// The content type that goes with a file's extension.
pub fn content_type_of(extension: Option<&str>) -> (kind: String)
    ensures
        kind@ == content_type(
            match extension {
                Some(e) => Some(e@),
                None => None,
            },
        ),
{
    match extension {
        None => String::from_str("application/octet-stream"),
        Some(e) => {
            let e = String::from_str(e);
            if e == String::from_str("html") {
                String::from_str("text/html")
            } else if e == String::from_str("css") {
                String::from_str("text/css")
            } else if e == String::from_str("js") {
                String::from_str("application/javascript")
            } else if e == String::from_str("wasm") {
                String::from_str("application/wasm")
            } else if e == String::from_str("json") {
                String::from_str("application/json")
            } else {
                String::from_str("application/octet-stream")
            }
        },
    }
}

/// The response that carries `body` as content of the type `kind`.
pub fn content_response(kind: String, body: Vec<u8>) -> (response: Response)
    ensures
        is_content_response(&response, kind@, body@),
{
    let mut headers: Vec<ResponseHeader> = Vec::new();
    headers.push(ResponseHeader { name: String::from_str("content-type"), value: kind });
    headers.push(
        ResponseHeader { name: String::from_str("access-control-allow-origin"), value: String::from_str("*") },
    );
    Response { status: OK, headers, body }
}

/// The response that carries a file that was found, as content of the type
/// that goes with the extension that the file's name has.
pub fn file_response(file: &str, contents: Vec<u8>) -> (response: Response)
    ensures
        exists|extension: Option<Seq<char>>|
            is_content_response(&response, #[trigger] content_type(extension), contents@),
{
    let extension = path_extension(file);
    let kind = match &extension {
        Some(e) => content_type_of(Some(e.as_str())),
        None => content_type_of(None),
    };
    content_response(kind, contents)
}

/// The response where the file was not found: the root document as a page
/// where that was found, and else the page that says that the front end is
/// missing.
pub fn fallback_response(index: Option<Vec<u8>>) -> (response: Response)
    ensures
        is_content_response(
            &response,
            "text/html"@,
            match index {
                Some(contents) => contents@,
                None => missing_page(),
            },
        ),
{
    let body = match index {
        Some(contents) => contents,
        None => vstd::slice::slice_to_vec(
            "<h1>Error: Frontend not built. Run 'npm run build' first.</h1>".as_bytes(),
        ),
    };
    content_response(String::from_str("text/html"), body)
}

} // verus!
