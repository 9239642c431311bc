//! The little of HTTP that the exercise's servers speak.

use crate::text::{
    decimal, decimal_digits, divide, divided, eq_ignoring_case, same_but_case, trim, trimmed,
};
use vstd::prelude::*;
use vstd::string::*;
use vstd::utf8::encode_utf8;

verus! {

/// Whether the blank line that ends the headers stands at position `at`.
pub open spec fn ends_headers(bytes: Seq<u8>, at: int) -> bool {
    &&& 0 <= at
    &&& at + 4 <= bytes.len()
    &&& bytes[at] == 13
    &&& bytes[at + 1] == 10
    &&& bytes[at + 2] == 13
    &&& bytes[at + 3] == 10
}

/// The first position, from `from` on, of the blank line that ends the headers.
pub open spec fn blank_line(bytes: Seq<u8>, from: int) -> Option<int>
    decreases bytes.len() + 4 - from,
{
    if from + 4 > bytes.len() {
        None
    } else if ends_headers(bytes, from) {
        Some(from)
    } else {
        blank_line(bytes, from + 1)
    }
}

/// Where the headers end, without the blank line after them.
pub fn find_blank_line(bytes: &[u8]) -> (result: Option<usize>)
    ensures
        match result {
            Some(at) => blank_line(bytes@, 0) == Some(at as int) && at + 4 <= bytes@.len(),
            None => blank_line(bytes@, 0) is None,
        },
{
    let size: usize = bytes.len();
    if size < 4 {
        return None;
    }
    let mut at: usize = 0;
    while at <= size - 4
        invariant
            size == bytes@.len(),
            4 <= size,
            at <= size - 3,
            blank_line(bytes@, 0) == blank_line(bytes@, at as int),
        decreases size - at,
    {
        if bytes[at] == 13 && bytes[at + 1] == 10 && bytes[at + 2] == 13 && bytes[at + 3] == 10 {
            assert(ends_headers(bytes@, at as int));
            return Some(at);
        }
        assert(!ends_headers(bytes@, at as int));
        at = at + 1;
    }
    None
}

/// The blank line that is found is the first one.
pub proof fn the_first_blank_line_is_found(bytes: Seq<u8>, from: int)
    requires
        0 <= from,
    ensures
        match blank_line(bytes, from) {
            Some(at) => {
                &&& from <= at
                &&& ends_headers(bytes, at)
                &&& forall|earlier: int| from <= earlier < at ==> !ends_headers(bytes, earlier)
            },
            None => forall|at: int| from <= at ==> !ends_headers(bytes, at),
        },
    decreases bytes.len() + 4 - from,
{
    if from + 4 <= bytes.len() && !ends_headers(bytes, from) {
        the_first_blank_line_is_found(bytes, from + 1);
    }
}

/// The value of a header line, trimmed, if the line is the header that declares the length of the
/// body.
pub open spec fn length_value(line: Seq<char>) -> Option<Seq<char>> {
    match divided(line, ':') {
        Some((name, value)) => if same_but_case(trimmed(name), "content-length"@) {
            Some(trimmed(value))
        } else {
            None
        },
        None => None,
    }
}

/// The value of a header line, trimmed, if the line is the header that declares the length of the
/// body.
pub fn read_length_value(line: &str) -> (result: Option<String>)
    ensures
        match result {
            Some(value) => length_value(line@) == Some(value@),
            None => length_value(line@) is None,
        },
{
    match divide(line, ':') {
        Some((name, value)) => {
            if eq_ignoring_case(trim(name.as_str()), "content-length") {
                Some(trim(value.as_str()).to_owned())
            } else {
                None
            }
        },
        None => None,
    }
}

/// A response.
pub struct Reply {
    pub status: &'static str,
    pub content_type: &'static str,
    pub body: String,
}

/// Whether a reply has this status, content type and body.
pub open spec fn is_reply(
    reply: Reply,
    status: Seq<char>,
    content_type: Seq<char>,
    body: Seq<char>,
) -> bool {
    reply.status@ == status && reply.content_type@ == content_type && reply.body@ == body
}

/// A response as it goes over the wire; its declared length is that of its body in bytes.
pub open spec fn response_text(status: Seq<char>, content_type: Seq<char>, body: Seq<char>) -> Seq<
    char,
> {
    "HTTP/1.1 "@ + status + "\r\nContent-Type: "@ + content_type + "\r\nContent-Length: "@
        + decimal_digits(encode_utf8(body).len()) + "\r\nConnection: close\r\n\r\n"@ + body
}

/// A response as it goes over the wire.
pub fn write_response(reply: &Reply) -> (result: String)
    ensures
        result@ == response_text(reply.status@, reply.content_type@, reply.body@),
{
    let mut text = String::from_str("HTTP/1.1 ");
    text.append(reply.status);
    text.append("\r\nContent-Type: ");
    text.append(reply.content_type);
    text.append("\r\nContent-Length: ");
    let bytes = reply.body.as_str().as_bytes_vec();
    text.append(decimal(bytes.len() as u64).as_str());
    text.append("\r\nConnection: close\r\n\r\n");
    text.append(reply.body.as_str());
    text
}

/// A header declares a length exactly when its name, before the first colon and without the blanks
/// around it, is that of the length, in capitals or not; its value is what follows, without the blanks
/// around it.
pub proof fn lengths_are_declared_by_name(name: Seq<char>, value: Seq<char>)
    requires
        crate::text::is_without(name, ':'),
    ensures
        same_but_case(trimmed(name), "content-length"@) ==> length_value(name + ":"@ + value) == Some(
            trimmed(value),
        ),
        !same_but_case(trimmed(name), "content-length"@) ==> length_value(name + ":"@ + value) is None,
        length_value(name) is None,
{
    reveal_strlit(":");
    assert(name + ":"@ + value =~= name + seq![':'] + value);
    crate::text::lemma_divided(name, ':', value);
    crate::text::lemma_position(name, ':', name.len() as int);
}

/// A response declares the length of its body in bytes and ends with that body, behind a blank line.
pub proof fn responses_end_with_their_body(
    status: Seq<char>,
    content_type: Seq<char>,
    body: Seq<char>,
)
    ensures
        response_text(status, content_type, body).skip(
            response_text(status, content_type, body).len() - body.len(),
        ) == body,
        response_text(status, content_type, body).take(
            response_text(status, content_type, body).len() - body.len(),
        ) == "HTTP/1.1 "@ + status + "\r\nContent-Type: "@ + content_type + "\r\nContent-Length: "@
            + decimal_digits(encode_utf8(body).len()) + "\r\nConnection: close\r\n\r\n"@,
{
    let text = response_text(status, content_type, body);
    assert(text.skip(text.len() - body.len()) =~= body);
    assert(text.take(text.len() - body.len()) =~= "HTTP/1.1 "@ + status + "\r\nContent-Type: "@
        + content_type + "\r\nContent-Length: "@ + decimal_digits(encode_utf8(body).len())
        + "\r\nConnection: close\r\n\r\n"@);
}

/// A reply has one status, one content type and one body.
pub proof fn replies_say_one_thing(
    reply: Reply,
    left: (Seq<char>, Seq<char>, Seq<char>),
    right: (Seq<char>, Seq<char>, Seq<char>),
)
    requires
        is_reply(reply, left.0, left.1, left.2),
    ensures
        is_reply(reply, right.0, right.1, right.2) == (left == right),
{
}

/// Headers end with two line breaks, each of them a carriage return and a line feed, wherever these
/// stand.
pub proof fn headers_end_with_two_line_breaks(head: Seq<u8>, body: Seq<u8>, bytes: Seq<u8>, at: int)
    ensures
        ends_headers(head + seq![13u8, 10u8, 13u8, 10u8] + body, head.len() as int),
        ends_headers(bytes, at) ==> at + 4 <= bytes.len() && bytes.subrange(at, at + 4) == seq![
            13u8,
            10u8,
            13u8,
            10u8,
        ],
{
    if ends_headers(bytes, at) {
        assert(bytes.subrange(at, at + 4) =~= seq![13u8, 10u8, 13u8, 10u8]);
    }
}

} // verus!
