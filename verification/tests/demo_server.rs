use fleet_drill::demo::exercise::chaos_start_url;
use fleet_drill::demo::server::{
    accepted, bad_body_reply, calendar_cleared_reply, chaos_started_reply, content_length,
    date_added_reply, health_reply, json_error, lookup_reply, magnolia_reply, missing_date_reply,
    not_found_reply, page_reply, percent_decode, query_value, random_seed, request_body,
    request_time_left, route, state_reply,
    update_reply, Request, RequestBuffer,
};
use fleet_drill::encoding::read_text;
use fleet_drill::http::write_response;

#[test]
fn a_request_is_read_until_its_body_is_complete() {
    let mut buffer = RequestBuffer::new();
    assert!(!buffer.take(&b"POST /update HTTP/1.1\r\nContent-Length: 4\r\n\r\nab".to_vec()));
    assert!(buffer.take(&b"cd".to_vec()));
    assert!(buffer.text().ends_with("\r\n\r\nabcd"));
    let mut closed = RequestBuffer::new();
    assert!(closed.take(&Vec::new()));
    assert_eq!(content_length(b"a: b\r\ncontent-length: x\r\nCONTENT-LENGTH: 12"), 12);
    assert_eq!(content_length(b"a: b"), 0);
}

#[test]
fn bytes_that_are_no_text_are_read_all_the_same() {
    let mut buffer = RequestBuffer::new();
    buffer.take(&b"GET /\xff HTTP/1.1\r\n\r\n".to_vec());
    assert_eq!(buffer.text(), "GET /\u{fffd} HTTP/1.1\r\n\r\n");
    assert_eq!(percent_decode("a%20b+c%zz%"), "a b c%zz%");
    assert_eq!(percent_decode("%ff"), "\u{fffd}");
}

#[test]
fn escaped_values_read_back() {
    let text = "Zürich +%& 1";
    let escaped: String = text.bytes().map(|byte| format!("%{byte:02x}")).collect();
    assert_eq!(percent_decode(&escaped), text);
    assert_eq!(percent_decode(&escaped.to_uppercase()), text);
    assert_eq!(percent_decode(&format!("{escaped}+{escaped}")), format!("{text} {text}"));
    assert_eq!(percent_decode("%4+%41"), "%4 A");
    assert_eq!(percent_decode("Zürich"), "Zürich");
    assert_eq!(
        query_value(&format!("/calendar/add?set={escaped}"), "set").as_deref(),
        Some(text)
    );
}

#[test]
fn texts_in_bytes_are_read_as_the_standard_library_reads_them() {
    let pieces: [&[u8]; 9] = [
        b"",
        b"a",
        b"\xff",
        b"\xe2\x82",
        b"\xe2\x82\xac",
        b"\xf0\x9f\x98",
        b"\x80\x80",
        b"\xc0\xaf",
        b"\xed\xa0\x80",
    ];
    for left in pieces {
        for middle in [b"+".as_slice(), b" ", b"\n\n", b""] {
            for right in pieces {
                let bytes = [left, middle, right].concat();
                assert_eq!(read_text(&bytes), String::from_utf8_lossy(&bytes), "{bytes:?}");
            }
        }
    }
}

#[test]
fn a_plus_sign_is_a_blank_whatever_stands_beside_it() {
    for (left, right) in [("%e2%82", "%ac"), ("%ff", "%ff"), ("%", "41"), ("%4", "1"), ("", "")] {
        assert_eq!(
            percent_decode(&format!("{left}+{right}")),
            format!("{} {}", percent_decode(left), percent_decode(right))
        );
    }
}

#[test]
fn a_whole_request_has_one_window() {
    assert_eq!(request_time_left(7, 7), Some(5000));
    assert_eq!(request_time_left(0, 4999), Some(1));
    assert_eq!(request_time_left(0, 5000), None);
    assert_eq!(request_time_left(0, u64::MAX), None);
    assert_eq!(request_time_left(9, 3), Some(5000));
}

#[test]
fn queries_are_read_by_name() {
    let path = "/calendar/add?set=demo-set-01&date=2026%2D07%2D04";
    assert_eq!(query_value(path, "date").as_deref(), Some("2026-07-04"));
    assert_eq!(query_value(path, "set").as_deref(), Some("demo-set-01"));
    assert_eq!(query_value(path, "other"), None);
    assert_eq!(query_value("/calendar/add", "set"), None);
}

#[test]
fn requests_ask_for_what_they_name() {
    let get = |path: &str| route(&format!("GET {path} HTTP/1.1\r\n\r\n"));
    assert!(matches!(get("/"), Request::Page));
    assert!(matches!(get("/state"), Request::State));
    assert!(matches!(get("/fleet"), Request::Fleet));
    assert!(matches!(get("/groups"), Request::Groups));
    assert!(matches!(get("/sets"), Request::Sets));
    assert!(matches!(get("/chaos"), Request::Chaos));
    assert!(matches!(get("/golden"), Request::Golden));
    assert!(matches!(get("/healthz"), Request::Health));
    assert!(matches!(get("/update"), Request::Unknown));
    assert!(matches!(route(""), Request::Unknown));

    let post = |path: &str| route(&format!("POST {path} HTTP/1.1\r\n\r\nbody"));
    assert!(matches!(
        post("/calendar/add?date=d"),
        Request::AddDate(set, Some(date)) if set == "demo-fleet" && date == "d"
    ));
    assert!(matches!(
        post("/calendar/clear?set=s"),
        Request::ClearCalendar(set) if set == "s"
    ));
    assert!(matches!(post("/update"), Request::Update(Ok(body)) if body == "body"));
    assert!(matches!(
        route("POST /update HTTP/1.1"),
        Request::Update(Err(message)) if message == "request body is missing"
    ));
    assert!(matches!(post("/magnolia/upgrade"), Request::UpgradeMagnolia));
    assert!(matches!(post("/fleet"), Request::Unknown));
    assert_eq!(request_body("a\r\n\r\nb").as_deref(), Ok("b"));
}

#[test]
fn the_chaos_is_started_as_its_address_says() {
    let asked = |seed: Option<u64>, epochs: Option<usize>| {
        route(&format!("POST {} HTTP/1.1\r\n\r\n", chaos_start_url("", seed, epochs)))
    };
    assert!(matches!(asked(Some(7), Some(3)), Request::StartChaos(Some(7), Some(3))));
    assert!(matches!(asked(None, None), Request::StartChaos(None, None)));
    assert!(matches!(asked(Some(0), None), Request::StartChaos(Some(0), None)));
    assert!(matches!(asked(None, Some(0)), Request::StartChaos(None, Some(1))));
    assert_eq!(
        chaos_start_url("http://demo", Some(7), None),
        "http://demo/chaos/start?loops=forever&seed=7"
    );
    assert_eq!(random_seed((1u128 << 64) + 5), 5);
}

#[test]
fn the_page_is_served_whole() {
    let reply = page_reply();
    assert_eq!((reply.status, reply.content_type), ("200 OK", "text/html; charset=utf-8"));
    assert_eq!(reply.body.len(), 30654);
    assert!(reply.body.starts_with("<!doctype html>\n"));
    assert!(reply.body.ends_with("</html>"));
    for address in ["/fleet", "/groups", "/sets", "/chaos", "/golden", "/calendar/add"] {
        assert!(reply.body.contains(address), "{address}");
    }
}

#[test]
fn replies_are_documents() {
    let reply = json_error("400 Bad Request", "a \"b\"");
    assert_eq!(reply.status, "400 Bad Request");
    assert_eq!(reply.body, "{\"error\":\"a \\\"b\\\"\"}");
    assert_eq!(accepted("x").body, "{\"status\":\"x\"}");
    assert_eq!(
        state_reply(Ok("2.0.0\n".into())).body,
        "{\"color\":\"green\",\"version\":\"2.0.0\"}"
    );
    assert_eq!(
        state_reply(Ok("1.0.0".into())).body,
        "{\"color\":\"red\",\"version\":\"1.0.0\"}"
    );
    assert_ne!(state_reply(Err("down".into())).status, "200 OK");
    assert_eq!(lookup_reply(Err("down".into())).status, "503 Service Unavailable");
    assert_eq!(lookup_reply(Ok("[]".into())).body, "[]");
    assert_eq!(missing_date_reply().status, "400 Bad Request");
    assert_eq!(
        date_added_reply("s", "d", Ok(())).body,
        "{\"status\":\"added d to s\"}"
    );
    assert_eq!(date_added_reply("s", "d", Err("e".into())).status, "400 Bad Request");
    assert_eq!(calendar_cleared_reply("s", Ok(())).body, "{\"status\":\"cleared s\"}");
    assert_eq!(
        calendar_cleared_reply("s", Err("e".into())).status,
        "500 Internal Server Error"
    );
    assert_eq!(chaos_started_reply(7, Ok(())).status, "202 Accepted");
    assert_ne!(chaos_started_reply(7, Err("busy".into())).status, "202 Accepted");
    assert_ne!(bad_body_reply("e").status, "202 Accepted");
    assert_eq!(update_reply(Ok(())).status, "202 Accepted");
    assert_ne!(update_reply(Err("e".into())).status, "202 Accepted");
    assert_eq!(magnolia_reply(Ok(())).status, "202 Accepted");
    assert_ne!(magnolia_reply(Err("e".into())).status, "202 Accepted");
    assert_eq!(not_found_reply().status, "404 Not Found");
    let text = write_response(&health_reply());
    assert!(text.starts_with("HTTP/1.1 200 OK\r\n"));
    assert!(text.contains("\r\n\r\n"));
}
