//! The console's server: when a request is complete, what it asks for, and what it is answered.

use crate::demo::forms::{
    decoded, form_text, hex_value, is_unencoded, unencoded_values_stand_for_themselves,
};
use crate::demo::layout::DEMO_FLEET_SET;
use crate::demo::page::{page, page_text};
use crate::encoding::{bytes_text, read_text};
use crate::http::{blank_line, find_blank_line, is_reply, length_value, read_length_value, Reply};
use crate::json::{json_string, write_string};
use crate::text::{
    decimal, decimal_digits, divide, divide_by, divided, divided_by, has_prefix, is_without,
    lemma_divided, lemma_position, lines, lines_of, parse_u64, parse_usize, parsed_unsigned,
    pieces, same, split_at_char, starts_with, trim, trimmed, view_of, views, words, words_of,
};
use vstd::prelude::*;
use vstd::slice::slice_subrange;
use vstd::string::*;
use vstd::utf8::{encode_utf8, valid_utf8};

verus! {

// ----- reading a request -----

/// The longest request that is read.
pub const MAX_REQUEST_BYTES: usize = 65536;

/// The window in which a whole request must arrive, in seconds.
pub const REQUEST_READ_TIMEOUT_SECS: u64 = 5;

/// The milliseconds that have gone by from a start to a present; none where the clock went back.
pub open spec fn gone_by(start: u64, now: u64) -> int {
    if now > start {
        now - start
    } else {
        0
    }
}

/// What is left of a request's window, in milliseconds, of one that has been read since `start`:
/// nothing once the window has gone by, however much of the request has arrived.
pub fn request_time_left(start: u64, now: u64) -> (result: Option<u64>)
    ensures
        match result {
            Some(left) => {
                &&& left > 0
                &&& gone_by(start, now) + left == REQUEST_READ_TIMEOUT_SECS * 1000
            },
            None => gone_by(start, now) >= REQUEST_READ_TIMEOUT_SECS * 1000,
        },
{
    let gone: u64 = if now > start {
        now - start
    } else {
        0
    };
    if gone < REQUEST_READ_TIMEOUT_SECS * 1000 {
        Some(REQUEST_READ_TIMEOUT_SECS * 1000 - gone)
    } else {
        None
    }
}

/// The first length that some header lines declare that is a number; zero where none is.
pub open spec fn declared_length(headers: Seq<Seq<char>>) -> nat
    decreases headers.len(),
{
    if headers.len() == 0 {
        0
    } else {
        match length_value(headers[0]) {
            Some(value) => match parsed_unsigned(value, usize::MAX as nat) {
                Some(length) => length,
                None => declared_length(headers.skip(1)),
            },
            None => declared_length(headers.skip(1)),
        }
    }
}

/// The length of the body that headers declare; zero where they declare none.
pub fn content_length(headers: &[u8]) -> (result: usize)
    ensures
        result == declared_length(lines_of(bytes_text(headers@))),
{
    let rows = lines(read_text(headers).as_str());
    let ghost all = views(rows@);
    let mut index: usize = 0;
    assert(all.skip(0) =~= all);
    while index < rows.len()
        invariant
            index <= rows.len(),
            all == views(rows@),
            all == lines_of(bytes_text(headers@)),
            declared_length(all) == declared_length(all.skip(index as int)),
        decreases rows.len() - index,
    {
        assert(all.skip(index as int)[0] == rows@[index as int]@);
        assert(all.skip(index as int).skip(1) =~= all.skip(index + 1));
        match read_length_value(rows[index].as_str()) {
            Some(value) => {
                match parse_usize(value.as_str()) {
                    Some(length) => return length,
                    None => {},
                }
            },
            None => {},
        }
        index = index + 1;
    }
    0
}

/// Whether a request is complete: its headers, and as much of a body as they declare.
pub open spec fn is_complete(bytes: Seq<u8>) -> bool {
    match blank_line(bytes, 0) {
        Some(at) => bytes.len() - (at + 4) >= declared_length(lines_of(bytes_text(bytes.take(at)))),
        None => false,
    }
}

/// A request, as far as it has been read.
pub struct RequestBuffer {
    pub bytes: Vec<u8>,
}

/// What has been read of a request with one more chunk, and whether reading ends there: where the
/// peer has closed, where the request has reached the bound, or where it is complete.
pub open spec fn read_on(bytes: Seq<u8>, chunk: Seq<u8>) -> (Seq<u8>, bool) {
    let all = bytes + chunk;
    if chunk.len() == 0 {
        (bytes, true)
    } else if all.len() >= MAX_REQUEST_BYTES {
        (all.take(MAX_REQUEST_BYTES as int), true)
    } else {
        (all, is_complete(all))
    }
}

impl RequestBuffer {
    /// A request of which nothing has been read.
    pub fn new() -> (result: RequestBuffer)
        ensures
            result.bytes@.len() == 0,
    {
        RequestBuffer { bytes: Vec::new() }
    }

    /// Takes what was read, nothing where the peer has closed; returns whether reading ends.
    pub fn take(&mut self, chunk: &Vec<u8>) -> (result: bool)
        requires
            old(self).bytes@.len() + chunk@.len() <= usize::MAX,
        ensures
            (final(self).bytes@, result) == read_on(old(self).bytes@, chunk@),
    {
        let ghost before = self.bytes@;
        if chunk.len() == 0 {
            return true;
        }
        let mut index: usize = 0;
        assert(before + chunk@.take(0) =~= before);
        while index < chunk.len()
            invariant
                index <= chunk.len(),
                self.bytes@ == before + chunk@.take(index as int),
            decreases chunk.len() - index,
        {
            self.bytes.push(chunk[index]);
            assert(self.bytes@ =~= before + chunk@.take(index + 1));
            index = index + 1;
        }
        assert(chunk@.take(chunk.len() as int) =~= chunk@);
        if self.bytes.len() >= MAX_REQUEST_BYTES {
            self.bytes.truncate(MAX_REQUEST_BYTES);
            assert(self.bytes@ =~= (before + chunk@).take(MAX_REQUEST_BYTES as int));
            return true;
        }
        match find_blank_line(self.bytes.as_slice()) {
            Some(at) => {
                let headers = slice_subrange(self.bytes.as_slice(), 0, at);
                assert(headers@ =~= self.bytes@.take(at as int));
                self.bytes.len() - at - 4 >= content_length(headers)
            },
            None => false,
        }
    }

    /// The request as text.
    pub fn text(&self) -> (result: String)
        ensures
            result@ == bytes_text(self.bytes@),
            valid_utf8(self.bytes@) ==> encode_utf8(result@) == self.bytes@,
    {
        read_text(self.bytes.as_slice())
    }
}

/// However a request is cut into chunks, it is never read past the bound.
pub proof fn requests_are_bounded(bytes: Seq<u8>, chunk: Seq<u8>)
    requires
        bytes.len() < MAX_REQUEST_BYTES,
    ensures
        read_on(bytes, chunk).0.len() <= MAX_REQUEST_BYTES,
        !read_on(bytes, chunk).1 ==> read_on(bytes, chunk).0.len() < MAX_REQUEST_BYTES,
{
}

/// A request that goes on before its bound and is not complete is read on: one that is cut
/// anywhere is never taken for the whole.
pub proof fn a_cut_request_is_read_on(bytes: Seq<u8>, chunk: Seq<u8>)
    requires
        chunk.len() > 0,
        bytes.len() + chunk.len() < MAX_REQUEST_BYTES,
        !is_complete(bytes + chunk),
    ensures
        read_on(bytes, chunk) == (bytes + chunk, false),
{
}

// ----- the parts of a request -----

/// What follows the headers of a request.
pub fn request_body(request: &str) -> (result: Result<String, String>)
    ensures
        match result {
            Ok(body) => divided_by(request@, "\r\n\r\n"@) is Some && divided_by(
                request@,
                "\r\n\r\n"@,
            )->Some_0.1 == body@,
            Err(message) => divided_by(request@, "\r\n\r\n"@) is None && message@
                == "request body is missing"@,
        },
{
    match divide_by(request, "\r\n\r\n") {
        Some((_, body)) => Ok(body),
        None => Err("request body is missing".to_owned()),
    }
}

/// Reads a hexadecimal digit.
fn read_hex(byte: u8) -> (result: Option<u8>)
    ensures
        result == hex_value(byte),
        result is Some ==> result->Some_0 < 16,
{
    if byte >= 48 && byte <= 57 {
        Some(byte - 48)
    } else if byte >= 97 && byte <= 102 {
        Some(byte - 87)
    } else if byte >= 65 && byte <= 70 {
        Some(byte - 55)
    } else {
        None
    }
}

/// The text that a form-encoded value stands for.
pub fn percent_decode(value: &str) -> (result: String)
    ensures
        result@ == form_text(value@),
        valid_utf8(decoded(encode_utf8(value@))) ==> encode_utf8(result@) == decoded(
            encode_utf8(value@),
        ),
        is_unencoded(value@) ==> result@ == value@,
{
    let bytes = value.as_bytes_vec();
    let ghost all = bytes@;
    let mut out: Vec<u8> = Vec::new();
    let mut index: usize = 0;
    assert(all.skip(0) =~= all);
    assert(out@ + decoded(all) =~= decoded(all));
    while index < bytes.len()
        invariant
            index <= bytes.len(),
            all == bytes@,
            out@ + decoded(all.skip(index as int)) == decoded(all),
        decreases bytes.len() - index,
    {
        let ghost rest = all.skip(index as int);
        let ghost before = out@;
        assert(rest[0] == all[index as int]);
        assert(rest.skip(1) =~= all.skip(index + 1));
        let byte: u8 = bytes[index];
        if byte == 43 {
            out.push(32);
            index = index + 1;
            assert(out@ + decoded(all.skip(index as int)) =~= before + decoded(rest));
        } else if byte == 37 && bytes.len() - index > 2 {
            assert(rest[1] == all[index + 1]);
            assert(rest[2] == all[index + 2]);
            assert(rest.skip(3) =~= all.skip(index + 3));
            match (read_hex(bytes[index + 1]), read_hex(bytes[index + 2])) {
                (Some(high), Some(low)) => {
                    out.push(high * 16 + low);
                    index = index + 3;
                    assert(out@ + decoded(all.skip(index as int)) =~= before + decoded(rest));
                },
                _ => {
                    out.push(37);
                    index = index + 1;
                    assert(out@ + decoded(all.skip(index as int)) =~= before + decoded(rest));
                },
            }
        } else {
            out.push(byte);
            index = index + 1;
            assert(out@ + decoded(all.skip(index as int)) =~= before + decoded(rest));
        }
    }
    assert(decoded(all.skip(index as int)).len() == 0);
    assert(out@ =~= decoded(all));
    proof {
        if is_unencoded(value@) {
            unencoded_values_stand_for_themselves(value@);
        }
    }
    read_text(out.as_slice())
}

/// What stands for the value of the first of some query fields that has this name.
pub open spec fn field_value(fields: Seq<Seq<char>>, name: Seq<char>) -> Option<Seq<char>>
    decreases fields.len(),
{
    if fields.len() == 0 {
        None
    } else {
        match divided(fields[0], '=') {
            Some((key, value)) => if key == name {
                Some(value)
            } else {
                field_value(fields.skip(1), name)
            },
            None => field_value(fields.skip(1), name),
        }
    }
}

/// What stands for the value that a path's query gives a name.
pub open spec fn query_part(path: Seq<char>, name: Seq<char>) -> Option<Seq<char>> {
    match divided(path, '?') {
        Some((_, query)) => field_value(pieces(query, '&'), name),
        None => None,
    }
}

/// The value that a path's query gives a name.
pub open spec fn query_field(path: Seq<char>, name: Seq<char>) -> Option<Seq<char>> {
    match query_part(path, name) {
        Some(part) => Some(form_text(part)),
        None => None,
    }
}

/// The value that a path's query gives a name.
pub fn query_value(path: &str, name: &str) -> (result: Option<String>)
    ensures
        view_of(result) == query_field(path@, name@),
        match result {
            Some(value) => {
                let bytes = decoded(encode_utf8(query_part(path@, name@)->Some_0));
                &&& query_part(path@, name@) is Some
                &&& valid_utf8(bytes) ==> encode_utf8(value@) == bytes
            },
            None => query_part(path@, name@) is None,
        },
{
    let query = match divide(path, '?') {
        Some((_, query)) => query,
        None => return None,
    };
    let fields = split_at_char(query.as_str(), '&');
    let ghost all = views(fields@);
    let mut index: usize = 0;
    assert(all.skip(0) =~= all);
    while index < fields.len()
        invariant
            index <= fields.len(),
            all == views(fields@),
            query_part(path@, name@) == field_value(all.skip(index as int), name@),
        decreases fields.len() - index,
    {
        assert(all.skip(index as int)[0] == fields@[index as int]@);
        assert(all.skip(index as int).skip(1) =~= all.skip(index + 1));
        match divide(fields[index].as_str(), '=') {
            Some((key, value)) => {
                if same(key.as_str(), name) {
                    return Some(percent_decode(value.as_str()));
                }
            },
            None => {},
        }
        index = index + 1;
    }
    None
}

/// A seed from the time: the low bits of the nanoseconds since the epoch.
pub fn random_seed(nanos_since_epoch: u128) -> (result: u64)
    ensures
        result == nanos_since_epoch % 0x1_0000_0000_0000_0000,
{
    (nanos_since_epoch % 0x1_0000_0000_0000_0000) as u64
}

// ----- what a request asks for -----

/// What a request asks for.
pub enum Request {
    Page,
    State,
    Fleet,
    Groups,
    Sets,
    /// Add a date to the calendar of a set; none where the request names no date.
    AddDate(String, Option<String>),
    ClearCalendar(String),
    Chaos,
    Golden,
    /// Start the chaos, with a seed where one is given, for a number of epochs or for ever.
    StartChaos(Option<u64>, Option<usize>),
    /// Deploy what the body declares; an error where there is no body.
    Update(Result<String, String>),
    UpgradeMagnolia,
    Health,
    Unknown,
}

/// The word of the request line at a place; empty where there is none.
pub open spec fn request_word(request: Seq<char>, place: int) -> Seq<char> {
    if lines_of(request).len() > 0 && place < words_of(lines_of(request)[0]).len() {
        words_of(lines_of(request)[0])[place]
    } else {
        Seq::empty()
    }
}

/// The set that a calendar request is about: the fleet's, where it names none.
pub open spec fn calendar_set(path: Seq<char>) -> Seq<char> {
    match query_field(path, "set"@) {
        Some(set) => set,
        None => DEMO_FLEET_SET@,
    }
}

/// The seed that a path's query gives.
pub open spec fn query_seed(path: Seq<char>) -> Option<nat> {
    match query_field(path, "seed"@) {
        Some(value) => parsed_unsigned(value, u64::MAX as nat),
        None => None,
    }
}

/// The number of epochs that a path's query gives: at least one, and none for a run without end.
pub open spec fn query_epochs(path: Seq<char>) -> Option<nat> {
    match query_field(path, "loops"@) {
        Some(value) => if value == "forever"@ {
            None
        } else {
            match parsed_unsigned(value, usize::MAX as nat) {
                Some(count) => Some(if count == 0 {
                    1
                } else {
                    count
                }),
                None => Some(1),
            }
        },
        None => None,
    }
}

/// Whether a request asks for this.
pub open spec fn asks_for(request: Seq<char>, asked: Request) -> bool {
    let path = request_word(request, 1);
    if request_word(request, 0) == "GET"@ {
        if path == "/"@ {
            asked is Page
        } else if path == "/state"@ {
            asked is State
        } else if path == "/fleet"@ {
            asked is Fleet
        } else if path == "/groups"@ {
            asked is Groups
        } else if path == "/sets"@ {
            asked is Sets
        } else if path == "/chaos"@ {
            asked is Chaos
        } else if path == "/golden"@ {
            asked is Golden
        } else if path == "/healthz"@ {
            asked is Health
        } else {
            asked is Unknown
        }
    } else if request_word(request, 0) == "POST"@ {
        if has_prefix(path, "/calendar/add"@) {
            &&& asked is AddDate
            &&& asked->AddDate_0@ == calendar_set(path)
            &&& view_of(asked->AddDate_1) == query_field(path, "date"@)
        } else if has_prefix(path, "/calendar/clear"@) {
            asked is ClearCalendar && asked->ClearCalendar_0@ == calendar_set(path)
        } else if has_prefix(path, "/chaos/start"@) {
            &&& asked is StartChaos
            &&& (match asked->StartChaos_0 {
                Some(seed) => query_seed(path) == Some(seed as nat),
                None => query_seed(path) is None,
            })
            &&& (match asked->StartChaos_1 {
                Some(epochs) => query_epochs(path) == Some(epochs as nat),
                None => query_epochs(path) is None,
            })
        } else if path == "/update"@ {
            &&& asked is Update
            &&& (match asked->Update_0 {
                Ok(body) => divided_by(request, "\r\n\r\n"@) is Some && divided_by(
                    request,
                    "\r\n\r\n"@,
                )->Some_0.1 == body@,
                Err(message) => divided_by(request, "\r\n\r\n"@) is None && message@
                    == "request body is missing"@,
            })
        } else if path == "/magnolia/upgrade"@ {
            asked is UpgradeMagnolia
        } else {
            asked is Unknown
        }
    } else {
        asked is Unknown
    }
}

fn read_calendar_set(path: &str) -> (result: String)
    ensures
        result@ == calendar_set(path@),
{
    match query_value(path, "set") {
        Some(set) => set,
        None => DEMO_FLEET_SET.to_owned(),
    }
}

fn read_seed(path: &str) -> (result: Option<u64>)
    ensures
        match result {
            Some(seed) => query_seed(path@) == Some(seed as nat),
            None => query_seed(path@) is None,
        },
{
    match query_value(path, "seed") {
        Some(value) => parse_u64(value.as_str()),
        None => None,
    }
}

fn read_epochs(path: &str) -> (result: Option<usize>)
    ensures
        match result {
            Some(epochs) => query_epochs(path@) == Some(epochs as nat),
            None => query_epochs(path@) is None,
        },
{
    match query_value(path, "loops") {
        Some(value) => {
            if same(value.as_str(), "forever") {
                None
            } else {
                match parse_usize(value.as_str()) {
                    Some(count) => Some(if count == 0 {
                        1
                    } else {
                        count
                    }),
                    None => Some(1),
                }
            }
        },
        None => None,
    }
}

fn read_get(path: &str) -> (result: Request)
    ensures
        forall|request: Seq<char>|
            request_word(request, 0) == "GET"@ && request_word(request, 1) == path@
                ==> #[trigger] asks_for(request, result),
{
    if same(path, "/") {
        Request::Page
    } else if same(path, "/state") {
        Request::State
    } else if same(path, "/fleet") {
        Request::Fleet
    } else if same(path, "/groups") {
        Request::Groups
    } else if same(path, "/sets") {
        Request::Sets
    } else if same(path, "/chaos") {
        Request::Chaos
    } else if same(path, "/golden") {
        Request::Golden
    } else if same(path, "/healthz") {
        Request::Health
    } else {
        Request::Unknown
    }
}

proof fn lemma_methods_differ()
    ensures
        "GET"@ != "POST"@,
{
    reveal_strlit("GET");
    reveal_strlit("POST");
    assert("GET"@.len() == 3);
    assert("POST"@.len() == 4);
}

/// What a request asks for.
pub fn route(request: &str) -> (result: Request)
    ensures
        asks_for(request@, result),
{
    proof {
        lemma_methods_differ();
    }
    let rows = lines(request);
    let parts = if rows.len() > 0 {
        assert(views(rows@)[0] == rows@[0]@);
        words(rows[0].as_str())
    } else {
        Vec::new()
    };
    let empty = String::new();
    let method = if parts.len() > 0 {
        assert(views(parts@)[0] == parts@[0]@);
        parts[0].as_str()
    } else {
        assert(empty@ =~= Seq::<char>::empty());
        empty.as_str()
    };
    let path = if parts.len() > 1 {
        assert(views(parts@)[1] == parts@[1]@);
        parts[1].as_str()
    } else {
        assert(empty@ =~= Seq::<char>::empty());
        empty.as_str()
    };
    assert(method@ == request_word(request@, 0));
    assert(path@ == request_word(request@, 1));
    if same(method, "GET") {
        read_get(path)
    } else if same(method, "POST") {
        if starts_with(path, "/calendar/add") {
            Request::AddDate(read_calendar_set(path), query_value(path, "date"))
        } else if starts_with(path, "/calendar/clear") {
            Request::ClearCalendar(read_calendar_set(path))
        } else if starts_with(path, "/chaos/start") {
            Request::StartChaos(read_seed(path), read_epochs(path))
        } else if same(path, "/update") {
            Request::Update(request_body(request))
        } else if same(path, "/magnolia/upgrade") {
            Request::UpgradeMagnolia
        } else {
            Request::Unknown
        }
    } else {
        Request::Unknown
    }
}

// ----- what a request is answered -----

/// An error as a JSON document.
pub open spec fn error_document(error: Seq<char>) -> Seq<char> {
    "{\"error\":"@ + json_string(error) + "}"@
}

/// A status as a JSON document.
pub open spec fn status_document(status: Seq<char>) -> Seq<char> {
    "{\"status\":"@ + json_string(status) + "}"@
}

/// A reply that reports an error.
pub fn json_error(status: &'static str, error: &str) -> (result: Reply)
    ensures
        is_reply(result, status@, "application/json"@, error_document(error@)),
{
    let mut body = String::from_str("{\"error\":");
    body.append(write_string(error).as_str());
    body.append("}");
    Reply { status, content_type: "application/json", body }
}

/// A reply that reports that something was accepted.
pub fn accepted(status: &str) -> (result: Reply)
    ensures
        is_reply(result, "202 Accepted"@, "application/json"@, status_document(status@)),
{
    let mut body = String::from_str("{\"status\":");
    body.append(write_string(status).as_str());
    body.append("}");
    Reply { status: "202 Accepted", content_type: "application/json", body }
}

/// The reply with the page.
pub fn page_reply() -> (result: Reply)
    ensures
        is_reply(result, "200 OK"@, "text/html; charset=utf-8"@, page_text()),
{
    Reply { status: "200 OK", content_type: "text/html; charset=utf-8", body: page() }
}

/// The reply with a JSON document.
pub fn document_reply(document: String) -> (result: Reply)
    ensures
        is_reply(result, "200 OK"@, "application/json"@, document@),
{
    Reply { status: "200 OK", content_type: "application/json", body: document }
}

/// The reply with a JSON document that the cluster had to be asked for.
pub fn lookup_reply(outcome: Result<String, String>) -> (result: Reply)
    ensures
        match outcome {
            Ok(document) => is_reply(result, "200 OK"@, "application/json"@, document@),
            Err(error) => is_reply(
                result,
                "503 Service Unavailable"@,
                "application/json"@,
                error_document(error@),
            ),
        },
{
    match outcome {
        Ok(document) => document_reply(document),
        Err(error) => json_error("503 Service Unavailable", error.as_str()),
    }
}

/// The state of the application as a JSON document: its version, and green for the upgraded one.
pub open spec fn state_document(version: Seq<char>) -> Seq<char> {
    "{\"color\":\""@ + (if trimmed(version) == "2.0.0"@ {
        "green"@
    } else {
        "red"@
    }) + "\",\"version\":"@ + json_string(trimmed(version)) + "}"@
}

/// The reply with the state of the application.
pub fn state_reply(outcome: Result<String, String>) -> (result: Reply)
    ensures
        match outcome {
            Ok(version) => is_reply(
                result,
                "200 OK"@,
                "application/json"@,
                state_document(version@),
            ),
            Err(error) => is_reply(
                result,
                "503 Service Unavailable"@,
                "application/json"@,
                error_document(error@),
            ),
        },
{
    match outcome {
        Ok(version) => {
            let version = trim(version.as_str());
            let color = if same(version, "2.0.0") {
                "green"
            } else {
                "red"
            };
            let mut body = String::from_str("{\"color\":\"");
            body.append(color);
            body.append("\",\"version\":");
            body.append(write_string(version).as_str());
            body.append("}");
            document_reply(body)
        },
        Err(error) => json_error("503 Service Unavailable", error.as_str()),
    }
}

/// The reply to a request without a date.
pub fn missing_date_reply() -> (result: Reply)
    ensures
        is_reply(
            result,
            "400 Bad Request"@,
            "application/json"@,
            error_document("date query parameter is required"@),
        ),
{
    json_error("400 Bad Request", "date query parameter is required")
}

/// The reply to a request for a date in a calendar.
pub fn date_added_reply(set: &str, date: &str, outcome: Result<(), String>) -> (result: Reply)
    ensures
        match outcome {
            Ok(_) => is_reply(
                result,
                "202 Accepted"@,
                "application/json"@,
                status_document("added "@ + date@ + " to "@ + set@),
            ),
            Err(error) => is_reply(
                result,
                "400 Bad Request"@,
                "application/json"@,
                error_document(error@),
            ),
        },
{
    match outcome {
        Ok(_) => {
            let mut status = String::from_str("added ");
            status.append(date);
            status.append(" to ");
            status.append(set);
            accepted(status.as_str())
        },
        Err(error) => json_error("400 Bad Request", error.as_str()),
    }
}

/// The reply to a request to clear a calendar.
pub fn calendar_cleared_reply(set: &str, outcome: Result<(), String>) -> (result: Reply)
    ensures
        match outcome {
            Ok(_) => is_reply(
                result,
                "202 Accepted"@,
                "application/json"@,
                status_document("cleared "@ + set@),
            ),
            Err(error) => is_reply(
                result,
                "500 Internal Server Error"@,
                "application/json"@,
                error_document(error@),
            ),
        },
{
    match outcome {
        Ok(_) => {
            let mut status = String::from_str("cleared ");
            status.append(set);
            accepted(status.as_str())
        },
        Err(error) => json_error("500 Internal Server Error", error.as_str()),
    }
}

/// The reply to a request to start the chaos.
pub fn chaos_started_reply(seed: u64, outcome: Result<(), String>) -> (result: Reply)
    ensures
        match outcome {
            Ok(_) => is_reply(
                result,
                "202 Accepted"@,
                "application/json"@,
                "{\"seed\":"@ + decimal_digits(seed as nat)
                    + ",\"status\":\"seeded fleet chaos started\"}"@,
            ),
            Err(error) => is_reply(
                result,
                "409 Conflict"@,
                "application/json"@,
                error_document(error@),
            ),
        },
{
    match outcome {
        Ok(_) => {
            let mut body = String::from_str("{\"seed\":");
            body.append(decimal(seed).as_str());
            body.append(",\"status\":\"seeded fleet chaos started\"}");
            Reply { status: "202 Accepted", content_type: "application/json", body }
        },
        Err(error) => json_error("409 Conflict", error.as_str()),
    }
}

/// The reply to a request whose body is not the declaration of a release.
pub fn bad_body_reply(error: &str) -> (result: Reply)
    ensures
        is_reply(result, "400 Bad Request"@, "application/json"@, error_document(error@)),
{
    json_error("400 Bad Request", error)
}

/// The reply to a request to deploy a release.
pub fn update_reply(outcome: Result<(), String>) -> (result: Reply)
    ensures
        match outcome {
            Ok(_) => is_reply(
                result,
                "202 Accepted"@,
                "application/json"@,
                status_document("submitted to Kubernetes; waiting for the operator"@),
            ),
            Err(error) => is_reply(
                result,
                "500 Internal Server Error"@,
                "application/json"@,
                error_document(error@),
            ),
        },
{
    match outcome {
        Ok(_) => accepted("submitted to Kubernetes; waiting for the operator"),
        Err(error) => json_error("500 Internal Server Error", error.as_str()),
    }
}

/// The reply to a request to upgrade the manual node.
pub fn magnolia_reply(outcome: Result<(), String>) -> (result: Reply)
    ensures
        match outcome {
            Ok(_) => is_reply(
                result,
                "202 Accepted"@,
                "application/json"@,
                status_document("manual Magnolia upgrade to v2 requested"@),
            ),
            Err(error) => is_reply(
                result,
                "500 Internal Server Error"@,
                "application/json"@,
                error_document(error@),
            ),
        },
{
    match outcome {
        Ok(_) => accepted("manual Magnolia upgrade to v2 requested"),
        Err(error) => json_error("500 Internal Server Error", error.as_str()),
    }
}

/// The reply to a health check.
pub fn health_reply() -> (result: Reply)
    ensures
        is_reply(result, "200 OK"@, "text/plain"@, "ok"@),
{
    Reply { status: "200 OK", content_type: "text/plain", body: "ok".to_owned() }
}

/// The reply to a request for something that is not there.
pub fn not_found_reply() -> (result: Reply)
    ensures
        is_reply(result, "404 Not Found"@, "text/plain"@, "not found"@),
{
    Reply { status: "404 Not Found", content_type: "text/plain", body: "not found".to_owned() }
}

// ----- what requests come to -----

/// Time that has gone by is never negative.
pub proof fn time_goes_forward_only(start: u64, now: u64)
    ensures
        now >= start ==> gone_by(start, now) == now - start,
        now <= start ==> gone_by(start, now) == 0,
{
}

/// The first header that declares a length as a number counts, whatever else is declared before it and
/// behind it; a request that declares none has no body.
pub proof fn the_first_length_declared_counts(
    before: Seq<Seq<char>>,
    header: Seq<char>,
    after: Seq<Seq<char>>,
)
    requires
        forall|i: int|
            0 <= i < before.len() ==> (length_value(#[trigger] before[i]) is None
                || parsed_unsigned(length_value(before[i])->Some_0, usize::MAX as nat) is None),
        length_value(header) is Some,
        parsed_unsigned(length_value(header)->Some_0, usize::MAX as nat) is Some,
    ensures
        declared_length(before) == 0,
        Some(declared_length(before + seq![header] + after)) == parsed_unsigned(
            length_value(header)->Some_0,
            usize::MAX as nat,
        ),
    decreases before.len(),
{
    let all = before + seq![header] + after;
    if before.len() > 0 {
        let rest = before.skip(1);
        assert forall|i: int| 0 <= i < rest.len() implies (length_value(#[trigger] rest[i]) is None
            || parsed_unsigned(length_value(rest[i])->Some_0, usize::MAX as nat) is None) by {
            assert(rest[i] == before[i + 1]);
        }
        the_first_length_declared_counts(rest, header, after);
        assert(length_value(before[0]) is None || parsed_unsigned(
            length_value(before[0])->Some_0,
            usize::MAX as nat,
        ) is None);
        assert(all[0] == before[0]);
        assert(all.skip(1) =~= rest + seq![header] + after);
    } else {
        assert(all[0] == header);
    }
}

/// A request is complete exactly where its headers have ended and as many bytes follow the blank line as
/// they declare.
pub proof fn requests_are_complete_with_their_body(bytes: Seq<u8>)
    ensures
        is_complete(bytes) <==> blank_line(bytes, 0) is Some && bytes.len() >= blank_line(
            bytes,
            0,
        )->0 + 4 + declared_length(lines_of(bytes_text(bytes.take(blank_line(bytes, 0)->0)))),
{
}

/// Reading ends where the peer has closed, where 65536 bytes have been read or where the request is
/// complete, and goes on otherwise; nothing that was read before is changed.
pub proof fn reading_ends_with_the_request(bytes: Seq<u8>, chunk: Seq<u8>)
    requires
        bytes.len() < 65536,
    ensures
        read_on(bytes, chunk).1 <==> chunk.len() == 0 || bytes.len() + chunk.len() >= 65536
            || is_complete(bytes + chunk),
        chunk.len() == 0 ==> read_on(bytes, chunk).0 == bytes,
        bytes.len() + chunk.len() <= 65536 ==> read_on(bytes, chunk).0 == bytes + chunk,
        bytes.len() + chunk.len() > 65536 ==> read_on(bytes, chunk).0.len() == 65536,
        read_on(bytes, chunk).0.take(bytes.len() as int) == bytes,
{
    let all = bytes + chunk;
    assert(all.take(bytes.len() as int) =~= bytes);
    if chunk.len() == 0 {
        assert(all =~= bytes);
    }
    if all.len() >= 65536 {
        assert(all.take(65536).take(bytes.len() as int) =~= bytes);
        if all.len() == 65536 {
            assert(all.take(65536) =~= all);
        }
    }
}

/// The first field of a name counts; a field of another name, or without a value, does not.
pub proof fn the_first_field_of_a_name_counts(
    name: Seq<char>,
    key: Seq<char>,
    value: Seq<char>,
    rest: Seq<Seq<char>>,
)
    requires
        is_without(key, '='),
    ensures
        field_value(Seq::empty(), name) is None,
        key == name ==> field_value(seq![key + seq!['='] + value] + rest, name) == Some(value),
        key != name ==> field_value(seq![key + seq!['='] + value] + rest, name) == field_value(
            rest,
            name,
        ),
        field_value(seq![key] + rest, name) == field_value(rest, name),
{
    lemma_divided(key, '=', value);
    lemma_position(key, '=', key.len() as int);
    let field = key + seq!['='] + value;
    assert((seq![field] + rest).skip(1) =~= rest);
    assert((seq![field] + rest)[0] == field);
    assert((seq![key] + rest).skip(1) =~= rest);
    assert((seq![key] + rest)[0] == key);
}

/// What a query gives a name is looked for behind the first question mark of a path only.
pub proof fn queries_follow_the_question_mark(page: Seq<char>, query: Seq<char>, name: Seq<char>)
    requires
        is_without(page, '?'),
    ensures
        query_part(page, name) is None,
        query_field(page, name) is None,
        query_part(page + seq!['?'] + query, name) == field_value(pieces(query, '&'), name),
        query_part(page + seq!['?'] + query, name) is Some ==> query_field(
            page + seq!['?'] + query,
            name,
        ) == Some(form_text(query_part(page + seq!['?'] + query, name)->0)),
{
    lemma_divided(page, '?', query);
    lemma_position(page, '?', page.len() as int);
}

/// A run is to last as many epochs as its query says, and one at least; for ever where it says so or says
/// nothing. A seed counts where it is a number. A calendar is the fleet's where no set is named.
pub proof fn queries_say_how_long_a_run_lasts(path: Seq<char>)
    ensures
        query_epochs(path) is None <==> query_field(path, "loops"@) is None || query_field(
            path,
            "loops"@,
        ) == Some("forever"@),
        query_epochs(path) is Some ==> ({
            let count = parsed_unsigned(query_field(path, "loops"@)->0, usize::MAX as nat);
            &&& query_epochs(path)->0 >= 1
            &&& count is None ==> query_epochs(path)->0 == 1
            &&& count is Some && count->0 >= 1 ==> query_epochs(path) == count
        }),
        query_seed(path) == (match query_field(path, "seed"@) {
            Some(value) => parsed_unsigned(value, u64::MAX as nat),
            None => None,
        }),
        query_field(path, "set"@) is None ==> calendar_set(path) == DEMO_FLEET_SET@,
        query_field(path, "set"@) is Some ==> calendar_set(path) == query_field(path, "set"@)->0,
{
}

/// A request is known by its method and path: whatever is asked for in another way is unknown.
pub proof fn requests_are_known_by_method_and_path(request: Seq<char>, asked: Request)
    requires
        asks_for(request, asked),
    ensures
        ({
            let reads = request_word(request, 0) == "GET"@;
            let writes = request_word(request, 0) == "POST"@;
            let path = request_word(request, 1);
            &&& asked is Page <==> reads && path == "/"@
            &&& asked is State <==> reads && path == "/state"@
            &&& asked is Fleet <==> reads && path == "/fleet"@
            &&& asked is Groups <==> reads && path == "/groups"@
            &&& asked is Sets <==> reads && path == "/sets"@
            &&& asked is Chaos <==> reads && path == "/chaos"@
            &&& asked is Golden <==> reads && path == "/golden"@
            &&& asked is Health <==> reads && path == "/healthz"@
            &&& asked is AddDate <==> writes && has_prefix(path, "/calendar/add"@)
            &&& asked is ClearCalendar <==> writes && has_prefix(path, "/calendar/clear"@)
            &&& asked is StartChaos <==> writes && has_prefix(path, "/chaos/start"@)
            &&& asked is Update <==> writes && path == "/update"@
            &&& asked is UpgradeMagnolia <==> writes && path == "/magnolia/upgrade"@
            &&& asked is AddDate ==> asked->AddDate_0@ == calendar_set(path) && view_of(
                asked->AddDate_1,
            ) == query_field(path, "date"@)
            &&& asked is ClearCalendar ==> asked->ClearCalendar_0@ == calendar_set(path)
            &&& asked is StartChaos ==> (asked->StartChaos_0 is Some <==> query_seed(path) is Some)
            &&& asked is StartChaos ==> (asked->StartChaos_1 is Some <==> query_epochs(
                path,
            ) is Some)
        }),
{
    lemma_methods_differ();
    reveal_strlit("/");
    reveal_strlit("/state");
    reveal_strlit("/fleet");
    reveal_strlit("/groups");
    reveal_strlit("/sets");
    reveal_strlit("/chaos");
    reveal_strlit("/golden");
    reveal_strlit("/healthz");
    assert("/"@.len() == 1 && "/state"@.len() == 6 && "/fleet"@.len() == 6 && "/groups"@.len() == 7);
    assert("/sets"@.len() == 5 && "/chaos"@.len() == 6 && "/golden"@.len() == 7);
    assert("/healthz"@.len() == 8 && "/state"@[1] == 's' && "/fleet"@[1] == 'f' && "/chaos"@[1]
        == 'c');
    assert("/groups"@[2] == 'r' && "/golden"@[2] == 'o');
    reveal_strlit("/calendar/add");
    reveal_strlit("/calendar/clear");
    reveal_strlit("/chaos/start");
    reveal_strlit("/update");
    reveal_strlit("/magnolia/upgrade");
    let path = request_word(request, 1);
    if has_prefix(path, "/calendar/add"@) {
        assert(path.take(13)[2] == 'a' && path.take(13)[10] == 'a');
        assert(path[2] == 'a' && path[10] == 'a' && path[1] == path.take(13)[1] && path[1] == 'c');
    }
    if has_prefix(path, "/calendar/clear"@) {
        assert(path.take(15)[2] == 'a' && path.take(15)[10] == 'c');
        assert(path[2] == 'a' && path[10] == 'c' && path[1] == path.take(15)[1] && path[1] == 'c');
    }
    if has_prefix(path, "/chaos/start"@) {
        assert(path.take(12)[2] == 'h' && path.take(12)[1] == 'c');
        assert(path[2] == 'h' && path[1] == 'c');
    }
    assert("/update"@[1] == 'u' && "/magnolia/upgrade"@[1] == 'm');
}

/// The application is green exactly where it runs the upgraded version, and red otherwise.
pub proof fn only_the_upgraded_version_is_green(version: Seq<char>)
    ensures
        trimmed(version) == "2.0.0"@ ==> state_document(version) == "{\"color\":\""@ + "green"@
            + "\",\"version\":"@ + json_string(trimmed(version)) + "}"@,
        trimmed(version) != "2.0.0"@ ==> state_document(version) == "{\"color\":\""@ + "red"@
            + "\",\"version\":"@ + json_string(trimmed(version)) + "}"@,
{
}

/// The words of a request are those of its first line: each stands at its place, and there are no
/// others.
pub proof fn requests_have_the_words_of_their_first_line(request: Seq<char>, place: int)
    requires
        0 <= place,
    ensures
        1 <= lines_of(request).len() && place < words_of(lines_of(request)[0]).len() ==> request_word(
            request,
            place,
        ) == words_of(lines_of(request)[0])[place],
        1 <= lines_of(request).len() && place >= words_of(lines_of(request)[0]).len()
            ==> request_word(request, place) == Seq::<char>::empty(),
        lines_of(request).len() == 0 ==> request_word(request, place) == Seq::<char>::empty(),
{
}

} // verus!
