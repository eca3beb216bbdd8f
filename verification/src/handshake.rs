//! The upgrade of a plain request into a message channel.
//!
//! A request asks for the upgrade where it is a `GET` whose `Upgrade` header
//! is `websocket`, whose `Connection` header mentions `upgrade` and which
//! carries a key. The answer to it carries the accept token: the base64 text
//! of the SHA-1 digest of the key followed by a fixed string.

use vstd::prelude::*;
use vstd::string::*;
use vstd::slice::slice_to_vec;
use crate::digest::{base64_encode, base64_text, sha1, sha1_digest};

verus! {

/// One header of a request: its name and its value, as they came.
#[derive(Debug)]
pub struct Header {
    pub name: Vec<u8>,
    pub value: Vec<u8>,
}

/// What the library reads of a request.
#[derive(Debug)]
pub struct Request {
    pub method: String,
    pub path: String,
    pub headers: Vec<Header>,
}

/// One header of a response.
#[derive(Debug)]
pub struct ResponseHeader {
    pub name: String,
    pub value: String,
}

/// A response, to be written out by whoever holds the connection.
#[derive(Debug)]
pub struct Response {
    pub status: u16,
    pub headers: Vec<ResponseHeader>,
    pub body: Vec<u8>,
}

/// The status of a response that switches protocols.
pub const SWITCHING_PROTOCOLS: u16 = 101;

/// The upper-case letter's lower-case letter; any other byte itself.
pub open spec fn lower(byte: u8) -> u8 {
    if 65 <= byte <= 90 {
        (byte + 32) as u8
    } else {
        byte
    }
}

/// Whether two texts are the same but for the case of their letters.
pub open spec fn same_ignoring_case(a: Seq<u8>, b: Seq<u8>) -> bool {
    &&& a.len() == b.len()
    &&& forall|i: int| 0 <= i < a.len() ==> lower(#[trigger] a[i]) == lower(b[i])
}

/// The value of the first header of that name, whatever the case of the
/// letters in the names.
pub open spec fn header_value(headers: Seq<Header>, name: Seq<u8>) -> Option<Seq<u8>>
    decreases headers.len(),
{
    if headers.len() == 0 {
        None
    } else if same_ignoring_case(headers[0].name@, name) {
        Some(headers[0].value@)
    } else {
        header_value(headers.skip(1), name)
    }
}

/// Whether every byte is a printable character, a space or a tab.
pub open spec fn is_visible_text(value: Seq<u8>) -> bool {
    forall|i: int| 0 <= i < value.len() ==> visible(#[trigger] value[i])
}

/// Whether the byte is a printable character, a space or a tab.
pub open spec fn visible(byte: u8) -> bool {
    32 <= byte < 127 || byte == 9
}

/// Whether `word` stands in `text` at `offset`, whatever the case of the
/// letters in `text`.
pub open spec fn mentions_at(text: Seq<u8>, word: Seq<u8>, offset: int) -> bool {
    &&& 0 <= offset
    &&& offset + word.len() <= text.len()
    &&& forall|j: int| 0 <= j < word.len() ==> lower(#[trigger] text[offset + j]) == word[j]
}

/// Whether `word` stands somewhere in `text`, whatever the case of the
/// letters in `text`.
pub open spec fn mentions(text: Seq<u8>, word: Seq<u8>) -> bool {
    exists|offset: int| mentions_at(text, word, offset)
}

/// Whether the request asks for the upgrade.
pub open spec fn upgrade_requested(request: &Request) -> bool {
    &&& request.method@ == "GET"@
    &&& header_value(request.headers@, "upgrade".spec_bytes()) == Some("websocket".spec_bytes())
    &&& header_value(request.headers@, "connection".spec_bytes()) is Some
    &&& is_visible_text(header_value(request.headers@, "connection".spec_bytes())->Some_0)
    &&& mentions(header_value(request.headers@, "connection".spec_bytes())->Some_0, "upgrade".spec_bytes())
    &&& header_value(request.headers@, "sec-websocket-key".spec_bytes()) is Some
}

/// The key that the request brings: the value of its key header where that
/// is visible text, and else nothing.
pub open spec fn key_of(request: &Request) -> Seq<u8> {
    match header_value(request.headers@, "sec-websocket-key".spec_bytes()) {
        Some(value) => if is_visible_text(value) {
            value
        } else {
            Seq::empty()
        },
        None => Seq::empty(),
    }
}

/// The fixed string that follows the key.
pub open spec fn magic() -> Seq<u8> {
    "258EAFA5-E914-47DA-95CA-C5AB0DC85B11".spec_bytes()
}

/// The accept token for a key.
pub open spec fn accept_token(key: Seq<u8>) -> Seq<char> {
    base64_text(sha1(key + magic()))
}

/// How many characters an accept token has.
pub const ACCEPT_LENGTH: usize = 28;

fn lower_byte(byte: u8) -> (l: u8)
    ensures
        l == lower(byte),
{
    if 65 <= byte && byte <= 90 {
        byte + 32
    } else {
        byte
    }
}

/// Whether two texts are the same, byte for byte.
pub fn same_bytes(a: &[u8], b: &[u8]) -> (same: bool)
    ensures
        same == (a@ == b@),
{
    if a.len() != b.len() {
        return false;
    }
    let mut i: usize = 0;
    while i < a.len()
        invariant
            0 <= i <= a@.len(),
            a@.len() == b@.len(),
            forall|j: int| 0 <= j < i ==> a@[j] == b@[j],
        decreases a.len() - i,
    {
        if a[i] != b[i] {
            return false;
        }
        i += 1;
    }
    assert(a@ =~= b@);
    true
}

/// Whether two texts are the same but for the case of their letters.
pub fn same_name(a: &[u8], b: &[u8]) -> (same: bool)
    ensures
        same == same_ignoring_case(a@, b@),
{
    if a.len() != b.len() {
        return false;
    }
    let mut i: usize = 0;
    while i < a.len()
        invariant
            0 <= i <= a@.len(),
            a@.len() == b@.len(),
            forall|j: int| 0 <= j < i ==> lower(#[trigger] a@[j]) == lower(b@[j]),
        decreases a.len() - i,
    {
        if lower_byte(a[i]) != lower_byte(b[i]) {
            return false;
        }
        i += 1;
    }
    true
}

/// Where the first header of that name stands.
pub fn find_header(headers: &Vec<Header>, name: &[u8]) -> (found: Option<usize>)
    ensures
        found is Some <==> header_value(headers@, name@) is Some,
        found matches Some(i) ==> i < headers@.len() && header_value(headers@, name@) == Some(
            headers@[i as int].value@,
        ),
{
    let mut i: usize = 0;
    assert(headers@.skip(0) =~= headers@);
    while i < headers.len()
        invariant
            0 <= i <= headers@.len(),
            header_value(headers@, name@) == header_value(headers@.skip(i as int), name@),
        decreases headers.len() - i,
    {
        let ghost rest = headers@.skip(i as int);
        assert(rest[0] == headers@[i as int]);
        assert(rest.skip(1) =~= headers@.skip(i + 1));
        if same_name(headers[i].name.as_slice(), name) {
            return Some(i);
        }
        i += 1;
    }
    None
}

/// Whether every byte is a printable character, a space or a tab.
pub fn visible_text(value: &[u8]) -> (b: bool)
    ensures
        b == is_visible_text(value@),
{
    let mut i: usize = 0;
    while i < value.len()
        invariant
            0 <= i <= value@.len(),
            forall|j: int| 0 <= j < i ==> visible(#[trigger] value@[j]),
        decreases value.len() - i,
    {
        let byte = value[i];
        if !((32 <= byte && byte < 127) || byte == 9) {
            return false;
        }
        i += 1;
    }
    true
}

fn stands_at(text: &[u8], word: &[u8], offset: usize) -> (b: bool)
    requires
        offset + word@.len() <= text@.len(),
    ensures
        b == mentions_at(text@, word@, offset as int),
{
    let length = text.len();
    let mut j: usize = 0;
    while j < word.len()
        invariant
            0 <= j <= word@.len(),
            length == text@.len(),
            offset + word@.len() <= text@.len(),
            forall|k: int| 0 <= k < j ==> lower(#[trigger] text@[offset + k]) == word@[k],
        decreases word.len() - j,
    {
        if lower_byte(text[offset + j]) != word[j] {
            return false;
        }
        j += 1;
    }
    true
}

/// Whether `word` stands somewhere in `text`, whatever the case of the
/// letters in `text`.
pub fn text_mentions(text: &[u8], word: &[u8]) -> (b: bool)
    ensures
        b == mentions(text@, word@),
{
    if word.len() > text.len() {
        return false;
    }
    let last = text.len() - word.len();
    let mut offset: usize = 0;
    loop
        invariant
            0 <= offset <= last,
            last == text@.len() - word@.len(),
            forall|k: int| 0 <= k < offset ==> !mentions_at(text@, word@, k),
        decreases last - offset,
    {
        if stands_at(text, word, offset) {
            return true;
        }
        if offset == last {
            return false;
        }
        offset += 1;
    }
}

/// Whether the request asks for the upgrade.
pub fn is_websocket_upgrade(request: &Request) -> (b: bool)
    ensures
        b == upgrade_requested(request),
{
    if !(request.method == String::from_str("GET")) {
        return false;
    }
    let upgrade = match find_header(&request.headers, "upgrade".as_bytes()) {
        Some(i) => same_bytes(request.headers[i].value.as_slice(), "websocket".as_bytes()),
        None => false,
    };
    if !upgrade {
        return false;
    }
    let connection = match find_header(&request.headers, "connection".as_bytes()) {
        Some(i) => {
            let value = request.headers[i].value.as_slice();
            visible_text(value) && text_mentions(value, "upgrade".as_bytes())
        },
        None => false,
    };
    if !connection {
        return false;
    }
    find_header(&request.headers, "sec-websocket-key".as_bytes()).is_some()
}

/// The key that the request brings.
pub fn websocket_key(request: &Request) -> (key: Vec<u8>)
    ensures
        key@ == key_of(request),
{
    match find_header(&request.headers, "sec-websocket-key".as_bytes()) {
        Some(i) => {
            let value = request.headers[i].value.as_slice();
            if visible_text(value) {
                slice_to_vec(value)
            } else {
                Vec::new()
            }
        },
        None => Vec::new(),
    }
}

/// The accept token for a key given as bytes.
pub fn accept_for(key: &[u8]) -> (accept: String)
    ensures
        accept@ == accept_token(key@),
        accept@.len() == ACCEPT_LENGTH,
{
    let mut material = slice_to_vec(key);
    let mut tail = slice_to_vec("258EAFA5-E914-47DA-95CA-C5AB0DC85B11".as_bytes());
    material.append(&mut tail);
    let digest = sha1_digest(material.as_slice());
    base64_encode(digest.as_slice())
}

/// The accept token for a key.
pub fn calculate_websocket_accept(key: &str) -> (accept: String)
    ensures
        accept@ == accept_token(key.spec_bytes()),
        accept@.len() == ACCEPT_LENGTH,
{
    accept_for(key.as_bytes())
}

/// What the answer to an upgrade holds, given the accept token.
pub open spec fn is_upgrade_response(response: &Response, accept: Seq<char>) -> bool {
    &&& response.status == SWITCHING_PROTOCOLS
    &&& response.body@.len() == 0
    &&& response.headers@.len() == 3
    &&& response.headers@[0].name@ == "upgrade"@
    &&& response.headers@[0].value@ == "websocket"@
    &&& response.headers@[1].name@ == "connection"@
    &&& response.headers@[1].value@ == "upgrade"@
    &&& response.headers@[2].name@ == "sec-websocket-accept"@
    &&& response.headers@[2].value@ == accept
}

/// The answer to an upgrade: it switches protocols, names the protocol and
/// the upgrade, and carries the accept token.
pub fn upgrade_response(accept: String) -> (response: Response)
    ensures
        is_upgrade_response(&response, accept@),
{
    let mut headers: Vec<ResponseHeader> = Vec::new();
    headers.push(ResponseHeader { name: String::from_str("upgrade"), value: String::from_str("websocket") });
    headers.push(ResponseHeader { name: String::from_str("connection"), value: String::from_str("upgrade") });
    headers.push(ResponseHeader { name: String::from_str("sec-websocket-accept"), value: accept });
    Response { status: SWITCHING_PROTOCOLS, headers, body: Vec::new() }
}

} // verus!
