//! The receiver of alerts: when a delivery is complete, what is recorded of it, and which
//! deliveries are refused.

use crate::encoding::read_utf8;
use crate::http::{blank_line, find_blank_line, length_value, read_length_value};
use crate::text::{decimal, decimal_digits, lines, lines_of, parse_usize, parsed_unsigned, views};
use vstd::prelude::*;
use vstd::slice::{slice_subrange, slice_to_vec};
use vstd::utf8::{decode_utf8, valid_utf8};

verus! {

/// The longest body, and about the longest headers, that the receiver takes.
pub const MAX_BODY: usize = 65536;

/// How long one connection may hold the receiver, in seconds.
pub const SERVE_TIMEOUT_SECS: u64 = 15;

/// The pause after a connection could not be accepted, in milliseconds.
pub const ACCEPT_ERROR_BACKOFF_MILLIS: u64 = 100;

/// Where a delivery's body begins: behind the blank line that ends its headers.
pub open spec fn header_end(bytes: Seq<u8>) -> Option<int> {
    match blank_line(bytes, 0) {
        Some(at) => Some(at + 4),
        None => None,
    }
}

/// Where a delivery's body begins.
pub fn find_header_end(buffer: &[u8]) -> (result: Option<usize>)
    ensures
        match result {
            Some(end) => header_end(buffer@) == Some(end as int) && end <= buffer@.len(),
            None => header_end(buffer@) is None,
        },
{
    let size: usize = buffer.len();
    match find_blank_line(buffer) {
        Some(at) => {
            assert(at + 4 <= size);
            Some(at + 4)
        },
        None => None,
    }
}

/// Why headers declare no length.
#[derive(Clone, Copy, PartialEq, Eq, Structural, Debug)]
pub enum LengthError {
    NotUtf8,
    NotANumber,
    Missing,
}

/// The length that the first header declares that declares one.
pub open spec fn declared_length(headers: Seq<Seq<char>>) -> Result<nat, LengthError>
    decreases headers.len(),
{
    if headers.len() == 0 {
        Err(LengthError::Missing)
    } else {
        match length_value(headers[0]) {
            Some(value) => match parsed_unsigned(value, usize::MAX as nat) {
                Some(length) => Ok(length),
                None => Err(LengthError::NotANumber),
            },
            None => declared_length(headers.skip(1)),
        }
    }
}

/// The length that headers declare.
pub open spec fn header_length(headers: Seq<u8>) -> Result<nat, LengthError> {
    if valid_utf8(headers) {
        declared_length(lines_of(decode_utf8(headers)))
    } else {
        Err(LengthError::NotUtf8)
    }
}

/// The length that headers declare, the blank line at their end included.
pub fn content_length(headers: &[u8]) -> (result: Result<usize, LengthError>)
    ensures
        match result {
            Ok(length) => header_length(headers@) == Ok::<nat, LengthError>(length as nat),
            Err(error) => header_length(headers@) == Err::<nat, LengthError>(error),
        },
{
    let text = match read_utf8(headers) {
        Some(text) => text,
        None => return Err(LengthError::NotUtf8),
    };
    proof {
        vstd::utf8::encode_utf8_valid_utf8(text@);
        vstd::utf8::encode_utf8_decode_utf8(text@);
    }
    let rows = lines(text.as_str());
    let ghost all = views(rows@);
    let mut index: usize = 0;
    assert(all.skip(0) =~= all);
    while index < rows.len()
        invariant
            index <= rows.len(),
            all == views(rows@),
            header_length(headers@) == declared_length(all),
            declared_length(all) == declared_length(all.skip(index as int)),
        decreases rows.len() - index,
    {
        assert(all.skip(index as int)[0] == rows@[index as int]@);
        assert(all.skip(index as int).skip(1) =~= all.skip(index + 1));
        match read_length_value(rows[index].as_str()) {
            Some(value) => {
                return match parse_usize(value.as_str()) {
                    Some(length) => Ok(length),
                    None => Err(LengthError::NotANumber),
                };
            },
            None => {},
        }
        index = index + 1;
    }
    Err(LengthError::Missing)
}

/// Why a delivery is refused.
pub enum Refusal {
    /// The headers went on for too long.
    HeadersTooLong,
    /// The headers declare no length.
    NoLength(LengthError),
    /// The declared length is over the bound.
    BodyTooLong(usize),
    /// The connection closed before the headers were complete.
    ClosedInHeaders,
    /// The connection closed before the body was complete.
    ClosedInBody,
}

/// What the receiver does next with a connection.
pub enum Delivery {
    /// It reads on.
    ReadOn,
    /// It records these bytes and answers.
    Record(Vec<u8>),
    /// It drops the connection.
    Refuse(Refusal),
}

/// A connection, as far as it has been read.
pub struct Connection {
    pub bytes: Vec<u8>,
}

/// Whether a decision is the one that some bytes call for; `closed` says that no more will come.
pub open spec fn is_decision(bytes: Seq<u8>, closed: bool, decision: Delivery) -> bool {
    match header_end(bytes) {
        None => if bytes.len() > MAX_BODY {
            decision == Delivery::Refuse(Refusal::HeadersTooLong)
        } else if closed {
            decision == Delivery::Refuse(Refusal::ClosedInHeaders)
        } else {
            decision is ReadOn
        },
        Some(end) => match header_length(bytes.take(end)) {
            Err(error) => decision == Delivery::Refuse(Refusal::NoLength(error)),
            Ok(length) => if length > MAX_BODY {
                decision == Delivery::Refuse(Refusal::BodyTooLong(length as usize))
            } else if bytes.len() >= end + length {
                decision is Record && decision->Record_0@ == bytes.subrange(end, end + length)
            } else if closed {
                decision == Delivery::Refuse(Refusal::ClosedInBody)
            } else {
                decision is ReadOn
            },
        },
    }
}

/// Decides what to do with a connection of which these bytes have been read; `closed` says that no
/// more will come.
pub fn decide(bytes: &Vec<u8>, closed: bool) -> (result: Delivery)
    ensures
        is_decision(bytes@, closed, result),
{
    let end: usize = match find_header_end(bytes.as_slice()) {
        Some(end) => end,
        None => {
            return if bytes.len() > MAX_BODY {
                Delivery::Refuse(Refusal::HeadersTooLong)
            } else if closed {
                Delivery::Refuse(Refusal::ClosedInHeaders)
            } else {
                Delivery::ReadOn
            };
        },
    };
    let headers = slice_subrange(bytes.as_slice(), 0, end);
    assert(headers@ =~= bytes@.take(end as int));
    let length: usize = match content_length(headers) {
        Ok(length) => length,
        Err(error) => return Delivery::Refuse(Refusal::NoLength(error)),
    };
    if length > MAX_BODY {
        Delivery::Refuse(Refusal::BodyTooLong(length))
    } else if bytes.len() - end >= length {
        Delivery::Record(slice_to_vec(slice_subrange(bytes.as_slice(), end, end + length)))
    } else if closed {
        Delivery::Refuse(Refusal::ClosedInBody)
    } else {
        Delivery::ReadOn
    }
}

impl Connection {
    /// A connection of which nothing has been read.
    pub fn new() -> (result: Connection)
        ensures
            result.bytes@.len() == 0,
    {
        Connection { bytes: Vec::new() }
    }

    /// Takes what was read; nothing was, once the peer has closed the connection.
    pub fn take(&mut self, chunk: &Vec<u8>) -> (result: Delivery)
        requires
            old(self).bytes@.len() + chunk@.len() <= usize::MAX,
        ensures
            final(self).bytes@ == old(self).bytes@ + chunk@,
            is_decision(final(self).bytes@, chunk@.len() == 0, result),
    {
        let ghost before = self.bytes@;
        let mut index: usize = 0;
        assert(before + chunk@.take(0) =~= before);
        while index < chunk.len()
            invariant
                index <= chunk.len(),
                self.bytes@ == before + chunk@.take(index as int),
            decreases chunk.len() - index,
        {
            self.bytes.push(chunk[index]);
            assert(self.bytes@ =~= before + chunk@.take(index + 1));
            index = index + 1;
        }
        assert(chunk@.take(chunk.len() as int) =~= chunk@);
        decide(&self.bytes, chunk.len() == 0)
    }
}

/// What is appended to the record for a delivery: its body, as one line.
pub fn record_line(body: Vec<u8>) -> (result: Vec<u8>)
    ensures
        result@ == body@.push(10),
{
    let mut line = body;
    line.push(10);
    line
}

/// What the receiver answers a delivery that it has recorded.
pub const ACCEPTED: &'static str = "HTTP/1.1 200 OK\r\ncontent-length: 0\r\nconnection: close\r\n\r\n";

/// The message of a refusal; for one that std words, the words are the caller's.
pub open spec fn refusal_text(refusal: Refusal) -> Option<Seq<char>> {
    match refusal {
        Refusal::HeadersTooLong => Some("alert headers exceeded the bound"@),
        Refusal::NoLength(LengthError::Missing) => Some(
            "alert delivery carried no content-length"@,
        ),
        Refusal::NoLength(_) => None,
        Refusal::BodyTooLong(length) => Some(
            "alert body of "@ + decimal_digits(length as nat) + " bytes exceeds the bound"@,
        ),
        Refusal::ClosedInHeaders => Some(
            "connection closed before the request headers were complete"@,
        ),
        Refusal::ClosedInBody => Some("connection closed before the request body was complete"@),
    }
}

/// The message of a refusal; for one that std words, nothing.
pub fn write_refusal(refusal: &Refusal) -> (result: Option<String>)
    ensures
        match result {
            Some(message) => refusal_text(*refusal) == Some(message@),
            None => refusal_text(*refusal) is None,
        },
{
    match refusal {
        Refusal::HeadersTooLong => Some("alert headers exceeded the bound".to_owned()),
        Refusal::NoLength(error) => match error {
            LengthError::Missing => Some("alert delivery carried no content-length".to_owned()),
            _ => None,
        },
        Refusal::BodyTooLong(length) => {
            let mut message = String::from_str("alert body of ");
            message.append(decimal(*length as u64).as_str());
            message.append(" bytes exceeds the bound");
            Some(message)
        },
        Refusal::ClosedInHeaders => Some(
            "connection closed before the request headers were complete".to_owned(),
        ),
        Refusal::ClosedInBody => Some(
            "connection closed before the request body was complete".to_owned(),
        ),
    }
}

/// What is recorded of a delivery is its body verbatim: exactly as many bytes as its headers
/// declare, from behind the blank line that ends them.
pub proof fn a_delivery_is_recorded_verbatim(bytes: Seq<u8>, closed: bool, decision: Delivery)
    requires
        is_decision(bytes, closed, decision),
        decision is Record,
    ensures
        header_end(bytes) is Some,
        ({
            let end = header_end(bytes)->Some_0;
            let length = header_length(bytes.take(end));
            &&& length is Ok
            &&& length->Ok_0 <= MAX_BODY
            &&& decision->Record_0@ == bytes.subrange(end, end + length->Ok_0)
        }),
{
}

/// A connection that is closed is never read on.
pub proof fn a_closed_connection_is_settled(bytes: Seq<u8>, decision: Delivery)
    requires
        is_decision(bytes, true, decision),
    ensures
        !(decision is ReadOn),
{
}

/// A delivery is recorded exactly when its headers are complete, declare a length of at most 65536 bytes,
/// and that many bytes have come behind them.
pub proof fn a_complete_delivery_is_recorded(bytes: Seq<u8>, closed: bool, decision: Delivery)
    requires
        is_decision(bytes, closed, decision),
    ensures
        decision is Record <==> header_end(bytes) is Some && header_length(
            bytes.take(header_end(bytes)->Some_0),
        ) is Ok && header_length(bytes.take(header_end(bytes)->Some_0))->Ok_0 <= 65536 && bytes.len()
            - header_end(bytes)->Some_0 >= header_length(bytes.take(header_end(bytes)->Some_0))->Ok_0,
        decision is ReadOn ==> !closed && (header_end(bytes) is None ==> bytes.len() <= 65536),
        header_end(bytes) is Some && header_length(bytes.take(header_end(bytes)->Some_0)) is Err
            ==> decision is Refuse,
        header_end(bytes) is Some && header_length(bytes.take(header_end(bytes)->Some_0)) is Ok
            && header_length(bytes.take(header_end(bytes)->Some_0))->Ok_0 > 65536 ==> decision is Refuse
            && decision->Refuse_0 is BodyTooLong,
        header_end(bytes) is None && bytes.len() > 65536 ==> decision is Refuse,
        header_end(bytes) is None && bytes.len() <= 65536 && !closed ==> decision is ReadOn,
{
}

/// The first header that declares a length counts, whatever the headers before it say, and no other; where
/// it declares what is no number, none does.
pub proof fn the_first_length_declared_counts(
    before: Seq<Seq<char>>,
    header: Seq<char>,
    after: Seq<Seq<char>>,
)
    requires
        forall|i: int| 0 <= i < before.len() ==> length_value(#[trigger] before[i]) is None,
        length_value(header) is Some,
    ensures
        declared_length(before) == Err::<nat, LengthError>(LengthError::Missing),
        match parsed_unsigned(length_value(header)->Some_0, usize::MAX as nat) {
            Some(length) => declared_length(before + seq![header] + after) == Ok::<nat, LengthError>(
                length,
            ),
            None => declared_length(before + seq![header] + after) == Err::<nat, LengthError>(
                LengthError::NotANumber,
            ),
        },
    decreases before.len(),
{
    let all = before + seq![header] + after;
    if before.len() > 0 {
        let rest = before.skip(1);
        assert forall|i: int| 0 <= i < rest.len() implies length_value(#[trigger] rest[i]) is None by {
            assert(rest[i] == before[i + 1]);
        }
        the_first_length_declared_counts(rest, header, after);
        assert(all[0] == before[0]);
        assert(all.skip(1) =~= rest + seq![header] + after);
    } else {
        assert(all[0] == header);
    }
}

/// Every refusal says why, but for a length that is no number, which says so itself.
pub proof fn refusals_say_why(length: usize)
    ensures
        refusal_text(Refusal::HeadersTooLong) == Some("alert headers exceeded the bound"@),
        refusal_text(Refusal::NoLength(LengthError::Missing)) == Some(
            "alert delivery carried no content-length"@,
        ),
        refusal_text(Refusal::NoLength(LengthError::NotANumber)) is None,
        refusal_text(Refusal::BodyTooLong(length)) == Some(
            "alert body of "@ + decimal_digits(length as nat) + " bytes exceeds the bound"@,
        ),
        refusal_text(Refusal::ClosedInHeaders) == Some(
            "connection closed before the request headers were complete"@,
        ),
        refusal_text(Refusal::ClosedInBody) == Some(
            "connection closed before the request body was complete"@,
        ),
{
}

proof fn lemma_declared_text(headers: Seq<Seq<char>>)
    ensures
        declared_length(headers) != Err::<nat, LengthError>(LengthError::NotUtf8),
    decreases headers.len(),
{
    if headers.len() > 0 && length_value(headers[0]) is None {
        lemma_declared_text(headers.skip(1));
    }
}

/// Headers are read as text, line by line, and are refused exactly where they are no text.
pub proof fn headers_are_read_as_text(text: Seq<char>, bytes: Seq<u8>)
    ensures
        header_length(vstd::utf8::encode_utf8(text)) == declared_length(lines_of(text)),
        header_length(bytes) == Err::<nat, LengthError>(LengthError::NotUtf8) <==> !valid_utf8(bytes),
{
    vstd::utf8::encode_utf8_valid_utf8(text);
    vstd::utf8::encode_utf8_decode_utf8(text);
    lemma_declared_text(lines_of(decode_utf8(bytes)));
}

/// A delivery is refused for what is wrong with it: headers that go on for more than 65536 bytes or
/// break off, headers that declare no length, a body that is longer than that or breaks off.
pub proof fn refusals_fit_what_came(bytes: Seq<u8>, closed: bool, decision: Delivery)
    requires
        is_decision(bytes, closed, decision),
    ensures
        ({
            let end = header_end(bytes);
            let length = header_length(bytes.take(end->Some_0));
            let refusal = decision->Refuse_0;
            let refused = decision is Refuse;
            &&& refused && refusal is HeadersTooLong <==> end is None && bytes.len() > 65536
            &&& refused && refusal is ClosedInHeaders <==> end is None && bytes.len() <= 65536
                && closed
            &&& refused && refusal is NoLength <==> end is Some && length is Err
            &&& refused && refusal is NoLength ==> refusal->NoLength_0 == length->Err_0
            &&& refused && refusal is BodyTooLong <==> end is Some && length is Ok && length->Ok_0
                > 65536
            &&& refused && refusal is ClosedInBody <==> end is Some && length is Ok && length->Ok_0
                <= 65536 && bytes.len() < end->Some_0 + length->Ok_0 && closed
            &&& decision is ReadOn <==> !closed && (if end is None {
                bytes.len() <= 65536
            } else {
                length is Ok && length->Ok_0 <= 65536 && bytes.len() < end->Some_0 + length->Ok_0
            })
        }),
{
}

} // verus!
