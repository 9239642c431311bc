use fleet_drill::e2e::alerts::{
    delivered_alerts, delivered_args, judge_halt, untold_message, HaltRecord, HaltVerdict,
};
use fleet_drill::e2e::alertsink::{
    content_length, decide, find_header_end, record_line, write_refusal, Connection, Delivery,
    LengthError, Refusal, MAX_BODY,
};

#[test]
fn the_body_is_located_by_the_headers_the_controller_sends() {
    let request =
        b"POST /alerts HTTP/1.1\r\nhost: alert-sink\r\nContent-Length: 7\r\n\r\n{\"a\":1}";
    let end = find_header_end(request).expect("headers end at the blank line");
    assert_eq!(content_length(&request[..end]).unwrap(), 7);
    assert_eq!(&request[end..], b"{\"a\":1}");
}

#[test]
fn a_delivery_in_pieces_is_recorded_verbatim() {
    let document = "{\"resource\":\"UpdateGroupSet/fleet-set-00\",\"condition\":\"DeploymentHalted\"}";
    let request = format!(
        "POST /alerts HTTP/1.1\r\ncontent-length: {}\r\n\r\n{document}trailing",
        document.len()
    );
    let (first, second) = request.as_bytes().split_at(30);
    let mut connection = Connection::new();
    assert!(matches!(connection.take(&first.to_vec()), Delivery::ReadOn));
    match connection.take(&second.to_vec()) {
        Delivery::Record(body) => {
            assert_eq!(body, document.as_bytes());
            assert_eq!(record_line(body), format!("{document}\n").as_bytes());
        }
        _ => panic!("the delivery is complete"),
    }
}

#[test]
fn deliveries_are_refused_for_a_reason() {
    let refusal = |bytes: &[u8], closed: bool| match decide(&bytes.to_vec(), closed) {
        Delivery::Refuse(refusal) => write_refusal(&refusal),
        _ => panic!("the delivery must be refused"),
    };
    assert_eq!(
        refusal(&vec![b'a'; MAX_BODY + 1], false).as_deref(),
        Some("alert headers exceeded the bound")
    );
    assert_eq!(
        refusal(b"POST /alerts HTTP/1.1\r\n\r\n", false).as_deref(),
        Some("alert delivery carried no content-length")
    );
    assert_eq!(
        refusal(b"POST / HTTP/1.1\r\ncontent-length: 65537\r\n\r\n", false).as_deref(),
        Some("alert body of 65537 bytes exceeds the bound")
    );
    assert_eq!(
        refusal(b"POST / HTTP/1.1\r\n", true).as_deref(),
        Some("connection closed before the request headers were complete")
    );
    assert_eq!(
        refusal(b"POST / HTTP/1.1\r\ncontent-length: 2\r\n\r\na", true).as_deref(),
        Some("connection closed before the request body was complete")
    );
    assert_eq!(refusal(b"content-length: -1\r\n\r\n", false), None);
    assert!(matches!(
        decide(&b"content-length: x\r\n\r\n".to_vec(), false),
        Delivery::Refuse(Refusal::NoLength(LengthError::NotANumber))
    ));
    assert_eq!(content_length(b"\xff\r\n\r\n"), Err(LengthError::NotUtf8));
    assert_eq!(content_length(b"\r\n"), Err(LengthError::Missing));
}

fn alert(resource: &str) -> String {
    format!(
        "{{\"resource\":\"{resource}\",\"condition\":\"DeploymentHalted\",\"state\":\"True\",\"reason\":\"r\",\"evidence\":\"e\",\"timestamp\":\"t\"}}"
    )
}

fn record(version: &str, condition: Option<&str>) -> HaltRecord {
    HaltRecord {
        cohort: 0,
        halted: vec![format!("fleet-cohort-00-{version}")],
        condition: condition.map(|word| word.to_string()),
    }
}

#[test]
fn a_halt_is_told_where_records_and_webhook_agree() {
    let told = delivered_alerts(&Some(format!(
        "not json\n{}\n{}\n",
        alert("UpdateGroup/elsewhere").replace("DeploymentHalted", "Ready"),
        alert("UpdateGroupSet/fleet-set-00"),
    )));
    assert_eq!(told.len(), 2);
    assert!(delivered_alerts(&None).is_empty());
    let records = vec![record("23.0.0", Some("True"))];
    assert!(matches!(
        judge_halt(&records, "23.0.0", &told),
        HaltVerdict::Told(1, notice)
            if notice == "regression halt on 23.0.0 is published on every affected set and group, and 1 DeploymentHalted alert(s) were delivered to the webhook (e.g. UpdateGroupSet/fleet-set-00: e)"
    ));
    assert!(matches!(
        judge_halt(&records, "23.0.0", &delivered_alerts(&None)),
        HaltVerdict::Pending(message)
            if message == "no DeploymentHalted alert has been delivered to the webhook receiver"
    ));
    assert!(matches!(
        judge_halt(&vec![record("22.0.0", Some("True"))], "23.0.0", &told),
        HaltVerdict::Pending(_)
    ));
    assert!(matches!(
        judge_halt(&vec![record("23.0.0", None)], "23.0.0", &told),
        HaltVerdict::Pending(_)
    ));
    let misnamed = delivered_alerts(&Some(alert("Agent/agent-0")));
    assert!(matches!(
        judge_halt(&records, "23.0.0", &misnamed),
        HaltVerdict::Faulty(message)
            if message.starts_with("the delivered alert names no known resource: {")
                && message.contains("\"resource\":\"Agent/agent-0\"")
                && message.ends_with('}')
    ));
    let lacking = delivered_alerts(&Some("{\"condition\": \"DeploymentHalted\", \"state\": \"True\"}".to_owned()));
    assert!(matches!(
        judge_halt(&records, "23.0.0", &lacking),
        HaltVerdict::Faulty(message)
            if message
                == "the delivered alert is missing resource: {\"condition\":\"DeploymentHalted\",\"state\":\"True\"}"
    ));
    assert_eq!(
        untold_message("x"),
        "the regression halt never reached its records or its webhook: x"
    );
    assert!(delivered_args().contains(&"/tmp/alerts.jsonl".to_owned()));
}
