//! Replies: a status, a JSON payload, and both as an HTTP response.

use crate::json::{is_simple, no_members, JsonView};
use crate::outside::{
    map_insert, map_tree, new_map, object_value, parsed_tree, printed, text_value, value_text,
    value_tree,
};
use crate::text::{decimal, decimal_text};
use vstd::prelude::*;
use vstd::string::*;
use vstd::utf8::encode_utf8;

verus! {

/// What a reply says.
#[verifier::ext_equal]
pub struct ResponseView {
    pub status: u16,
    pub payload: JsonView,
}

/// A reply, before it is put on the wire.
#[derive(Debug)]
pub struct Response {
    pub status: u16,
    pub payload: serde_json::Value,
}

impl View for Response {
    type V = ResponseView;

    open spec fn view(&self) -> ResponseView {
        ResponseView { status: self.status, payload: value_tree(self.payload) }
    }
}

/// Adds a member that is a string.
pub(crate) fn put_text(
    members: &mut serde_json::Map<String, serde_json::Value>,
    name: &str,
    text: &str,
)
    ensures
        map_tree(*final(members)) == map_tree(*old(members)).insert(
            name@,
            JsonView::Text(text@),
        ),
{
    map_insert(members, name.to_owned(), text_value(text));
}

/// The payload that reports an error.
pub open spec fn error_tree(error: Seq<char>, detail: Seq<char>) -> JsonView {
    JsonView::Object(
        no_members().insert("error"@, JsonView::Text(error)).insert(
            "detail"@,
            JsonView::Text(detail),
        ),
    )
}

/// The reply that reports an error.
pub open spec fn error_reply(status: u16, error: Seq<char>, detail: Seq<char>) -> ResponseView {
    ResponseView { status, payload: error_tree(error, detail) }
}

/// The payload that reports an error: its code, and a text for the reader.
pub fn error_payload(error: &str, detail: &str) -> (payload: serde_json::Value)
    ensures
        value_tree(payload) == error_tree(error@, detail@),
{
    let mut members = new_map();
    put_text(&mut members, "error", error);
    put_text(&mut members, "detail", detail);
    object_value(members)
}

/// The reply that reports an error.
pub fn error_response(status: u16, error: &str, detail: &str) -> (response: Response)
    ensures
        response@ == error_reply(status, error@, detail@),
{
    Response { status, payload: error_payload(error, detail) }
}

/// The reason phrase of a status.
pub open spec fn reason(status: u16) -> Seq<char> {
    if status == 202 {
        "Accepted"@
    } else if status == 400 {
        "Bad Request"@
    } else if status == 404 {
        "Not Found"@
    } else if status == 500 {
        "Internal Server Error"@
    } else if status == 502 {
        "Bad Gateway"@
    } else if status == 503 {
        "Service Unavailable"@
    } else {
        "OK"@
    }
}

/// The reason phrase of a status.
pub fn status_text(status: u16) -> (text: &'static str)
    ensures
        text@ == reason(status),
{
    match status {
        202 => "Accepted",
        400 => "Bad Request",
        404 => "Not Found",
        500 => "Internal Server Error",
        502 => "Bad Gateway",
        503 => "Service Unavailable",
        _ => "OK",
    }
}

/// A line of the head of an HTTP response.
pub open spec fn head_line(line: Seq<char>) -> Seq<char> {
    line + "\r\n"@
}

/// The status line of an HTTP response.
pub open spec fn status_line(status: u16) -> Seq<char> {
    "HTTP/1.1 "@ + decimal(status as nat) + " "@ + reason(status)
}

/// The head of an HTTP response with a JSON body of `length` bytes.
pub open spec fn response_head(status: u16, length: nat) -> Seq<char> {
    head_line(status_line(status)) + head_line("Content-Type: application/json"@) + head_line(
        "Content-Length: "@ + decimal(length),
    ) + head_line("Connection: close"@) + "\r\n"@
}

/// An HTTP response with a JSON body.
pub open spec fn http_response(status: u16, body: Seq<char>) -> Seq<char> {
    response_head(status, encode_utf8(body).len()) + body
}

/// An HTTP response with that JSON body.
pub fn frame_response(status: u16, body: &str) -> (response: String)
    ensures
        response@ == http_response(status, body@),
{
    let length: usize = body.as_bytes().len();
    let status_line = "HTTP/1.1 ".to_owned().concat(decimal_text(status as usize).as_str()).concat(
        " ",
    ).concat(status_text(status));
    let length_line = "Content-Length: ".to_owned().concat(decimal_text(length).as_str());
    let response = status_line.concat("\r\n").concat("Content-Type: application/json").concat(
        "\r\n",
    ).concat(length_line.as_str()).concat("\r\n").concat("Connection: close").concat("\r\n").concat(
        "\r\n",
    ).concat(body);
    assert(response@ =~= http_response(status, body@));
    response
}

/// Whether a payload is read back from its text as it was.
pub open spec fn is_read_back(payload: JsonView) -> bool {
    parsed_tree(printed(payload)) == Some(payload)
}

/// The reply as an HTTP response. A payload that is simple is read back from
/// its body.
pub fn render_response(response: &Response) -> (text: String)
    ensures
        text@ == http_response(response@.status, printed(response@.payload)),
        is_simple(response@.payload, 100) ==> is_read_back(response@.payload),
{
    frame_response(response.status, value_text(&response.payload).as_str())
}

} // verus!
