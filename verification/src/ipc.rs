//! The local HTTP endpoint that the browser extension posts captures to: reading
//! a request and writing the answer.
use vstd::prelude::*;
use crate::text::{chars_of, decimal, decimal_string, find_first, first_occurrence, has_prefix, push_str, starts_with, string_from_range};

verus! {

/// The full HTTP/1.1 answer with a JSON body; its `Content-Length` is the body's length in UTF-8 bytes.
pub open spec fn http_response_view(status: Seq<char>, body: Seq<char>, body_bytes: nat) -> Seq<char> {
    "HTTP/1.1 "@ + status + "\r\nContent-Type: application/json\r\nContent-Length: "@ + decimal(body_bytes)
        + "\r\nConnection: close\r\n\r\n"@ + body
}

pub fn http_response(status: &str, body: &str) -> (r: String)
    ensures
        r@ == http_response_view(status@, body@, body.len() as nat),
{
    let mut r = "HTTP/1.1 ".to_owned();
    push_str(&mut r, status);
    push_str(&mut r, "\r\nContent-Type: application/json\r\nContent-Length: ");
    let length = decimal_string(body.len() as u64);
    push_str(&mut r, length.as_str());
    push_str(&mut r, "\r\nConnection: close\r\n\r\n");
    push_str(&mut r, body);
    r
}

/// The body of a request: what follows the first blank line, provided the head
/// starts with `POST `; otherwise the error the endpoint answers with.
pub open spec fn request_body_view(raw: Seq<char>) -> Result<Seq<char>, Seq<char>> {
    match first_occurrence(raw, "\r\n\r\n"@) {
        None => Err("missing request body"@),
        Some(k) => if starts_with(raw.subrange(0, k), "POST "@) {
            Ok(raw.subrange(k + 4, raw.len() as int))
        } else {
            Err("only POST is supported"@)
        },
    }
}

/// Reads the body out of the text of an HTTP request.
pub fn read_http_request_body(raw: &str) -> (r: Result<String, String>)
    ensures
        match r {
            Ok(body) => request_body_view(raw@) == Ok::<Seq<char>, Seq<char>>(body@),
            Err(e) => request_body_view(raw@) == Err::<Seq<char>, Seq<char>>(e@),
        },
{
    let chars = chars_of(raw);
    let separator = chars_of("\r\n\r\n");
    proof {
        reveal_strlit("\r\n\r\n");
    }
    match find_first(&chars, &separator) {
        None => Err("missing request body".to_owned()),
        Some(k) => {
            let head = chars_of(string_from_range(&chars, 0, k).as_str());
            if has_prefix(&head, &chars_of("POST ")) {
                Ok(string_from_range(&chars, k + 4, chars.len()))
            } else {
                Err("only POST is supported".to_owned())
            }
        },
    }
}

} // verus!
