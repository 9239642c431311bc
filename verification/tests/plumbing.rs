use fleet_drill::commands::{
    check_capacity, chart_path, cluster_pod_capacity, command_exists, has_cluster, kube_context,
    output, read_value, read_words, value_says, OutputError,
};
use fleet_drill::endpoints::{
    check_isolation, check_reconciled, check_set, ready_external_addresses, service_endpoints,
    write_violation, DemoSets, FleetSets, RoundVerdict, ServiceEndpoint, SetVerdict,
};
use fleet_drill::json::{
    is_true, item, item_count, member, natural_of, parse_json, text_of, write_plain, PlainMember,
    PlainValue,
};
use fleet_drill::naming::{agent_ordinal, version_major, version_of_major};
use fleet_drill::random::splitmix64;
use fleet_drill::text::{parse_u64, signed_decimal, take_chars};
use fleet_drill::version::read_version;
use fleet_drill::waiting::{write_lag, write_lagging, Look, Wait};

#[test]
fn a_wait_ends_with_success_or_its_last_error() {
    let mut wait = Wait::new(17, "the fleet");
    for _ in 0..15 {
        assert!(matches!(wait.look(Err("refused".into())), Look::Again(None)));
    }
    match wait.look(Ok(false)) {
        Look::Again(Some(notice)) => assert_eq!(notice, "waiting for the fleet (15/17s)"),
        _ => panic!("a notice is due"),
    }
    assert!(matches!(wait.look(Err("reset".into())), Look::Again(None)));
    assert!(wait.is_over());
    let message = wait.timeout_message();
    assert!(message.starts_with("timed out after 17s waiting for the fleet"));
    assert!(message.contains("reset") && !message.contains("refused"));
    let mut wait = Wait::new(1, "x");
    assert!(matches!(wait.look(Ok(true)), Look::Done));
}

#[test]
fn laggards_are_listed() {
    let lag = write_lag("agent-1", false, &None, &Some("g".into()));
    assert_eq!(lag, "agent-1={healthy:false,version:unreachable,group:g}");
    assert!(write_lagging("1.0.0", 3, &vec![lag.clone()], "").contains(&lag));
}

#[test]
fn commands_say_what_they_say() {
    assert!(matches!(
        output(true, &b" a \n".to_vec(), &Vec::new()),
        Ok(text) if text == "a"
    ));
    assert!(matches!(
        output(true, &vec![0xff], &Vec::new()),
        Err(OutputError::NotUtf8)
    ));
    assert!(matches!(
        output(false, &Vec::new(), &b"bad \xff\n".to_vec()),
        Err(OutputError::Failed(said)) if said == "bad \u{fffd}"
    ));
    assert_eq!(command_exists("kind", true, true), Ok(()));
    assert_eq!(
        command_exists("ki\"nd", false, false),
        Err("required command \"ki\\\"nd\" is not installed".to_owned())
    );
    assert!(command_exists("kind", true, false).is_err());
    assert!(has_cluster("a\ndemo\n", "demo"));
    assert!(!has_cluster("demo-2\n", "demo"));
    assert_eq!(kube_context("demo"), "kind-demo");
    assert!(chart_path("/w", "updatec").starts_with("/w/"));
    assert_eq!(cluster_pod_capacity(&Some("110\n".into())), 110);
    assert_eq!(cluster_pod_capacity(&Some("many".into())), 0);
    assert_eq!(cluster_pod_capacity(&None), 0);
    assert_eq!(check_capacity("node", 81, 81, 40), Ok(()));
    assert_eq!(
        check_capacity("node", 80, 81, 40),
        Err("node advertises capacity for 80 pods; at least 81 are required for 40 services plus system workloads".to_owned())
    );
    assert_eq!(read_value(&Some(" a ".into())).as_deref(), Some("a"));
    assert_eq!(read_value(&Some(" ".into())), None);
    assert_eq!(read_words(&Some("a  b".into())), vec!["a", "b"]);
    assert!(value_says(&Some("true\n".into()), "true"));
    assert!(!value_says(&None, "true"));
}

#[test]
fn documents_are_read_member_by_member() {
    let document = parse_json("{\"a\":[1,\"x\",true],\"a\":[2,\"y\",false],\"n\":-1}").unwrap();
    let list = member(Some(&document), "a");
    assert_eq!(item_count(list), 3);
    assert_eq!(natural_of(item(list, 0)), 2);
    assert_eq!(text_of(item(list, 1)), Some("y"));
    assert!(!is_true(item(list, 2)));
    assert_eq!(natural_of(member(Some(&document), "n")), 0);
    assert!(member(Some(&document), "missing").is_none());
    assert_eq!(
        parse_json("{").err().as_deref(),
        Some("EOF while parsing an object at line 1 column 1")
    );
}

#[test]
fn what_is_written_is_read_back() {
    let members = vec![
        PlainMember {
            name: "number".into(),
            value: PlainValue::Number(u64::MAX),
        },
        PlainMember {
            name: "te\"xt".into(),
            value: PlainValue::Text("a\u{1}\n\"".into()),
        },
    ];
    let text = write_plain(&members);
    assert_eq!(
        text,
        "{\"number\":18446744073709551615,\"te\\\"xt\":\"a\\u0001\\n\\\"\"}"
    );
    let document = parse_json(&text).unwrap();
    assert_eq!(natural_of(member(Some(&document), "number")), u64::MAX);
    assert_eq!(text_of(member(Some(&document), "te\"xt")), Some("a\u{1}\n\""));
}

fn endpoint(pod: Option<&str>, ready: bool) -> ServiceEndpoint {
    ServiceEndpoint {
        pod: pod.map(String::from),
        addresses: vec!["10.0.0.1".into()],
        ready,
    }
}

#[test]
fn a_service_admits_only_its_own_pods() {
    let own = vec![endpoint(Some("agent-0"), true), endpoint(Some("agent-3"), false)];
    assert!(matches!(check_set(&DemoSets, &own, 0), SetVerdict::Isolated));
    let stray = vec![endpoint(Some("agent-0"), true), endpoint(Some("agent-4"), false)];
    assert!(matches!(
        check_set(&FleetSets, &stray, 0),
        SetVerdict::Violated(pod) if pod == "agent-4"
    ));
    assert!(matches!(
        check_set(&FleetSets, &Vec::new(), 0),
        SetVerdict::Unpopulated
    ));
    assert!(matches!(
        check_isolation(
            &FleetSets,
            &vec![Some(vec![endpoint(Some("agent-0"), true)]), None]
        ),
        RoundVerdict::Waiting
    ));
    assert!(matches!(
        check_isolation(&FleetSets, &vec![None, Some(stray)]),
        RoundVerdict::Violated(1, pod) if pod == "agent-0"
    ));
    assert!(matches!(
        check_isolation(&FleetSets, &vec![Some(own)]),
        RoundVerdict::Isolated
    ));
    assert!(write_violation("x", 1, "s", "agent-0").contains("agent-0"));
}

#[test]
fn endpoints_are_read_from_their_slices() {
    let listing = parse_json(
        "{\"items\":[{\"metadata\":{\"labels\":{\"endpointslice.kubernetes.io/managed-by\":\"updated-healthproxy\"}},\"endpoints\":[{\"addresses\":[\"10.0.0.1\"],\"conditions\":{\"ready\":true}},{\"addresses\":[\"10.0.0.2\"],\"conditions\":{\"ready\":false},\"targetRef\":{\"kind\":\"Pod\",\"name\":\"agent-1\"}}]}]}",
    )
    .unwrap();
    let (managers, endpoints) = service_endpoints(&listing);
    assert_eq!(managers, vec!["updated-healthproxy"]);
    assert_eq!(endpoints.len(), 2);
    assert_eq!(endpoints[1].pod.as_deref(), Some("agent-1"));
    assert_eq!(ready_external_addresses(&endpoints), vec!["10.0.0.1"]);
    assert!(check_reconciled(&managers, &endpoints, 1));
    assert!(!check_reconciled(&managers, &endpoints, 2));
    assert!(!check_reconciled(&Vec::new(), &endpoints, 1));
}

#[test]
fn versions_are_read() {
    let version = read_version("1.20.3-rc.1+build").unwrap();
    assert_eq!((version.major, version.minor, version.patch), (1, 20, 3));
    assert_eq!(
        read_version("1.2").err(),
        semver::Version::parse("1.2").err().map(|error| error.to_string())
    );
    assert_eq!(version_major("22.0.0"), Some(22));
    assert_eq!(version_of_major(22), "22.0.0");
    assert_eq!(agent_ordinal("agent-12"), Some(12));
    assert_eq!(agent_ordinal("agent-x"), None);
}

#[test]
fn numbers_are_written_and_read() {
    assert_eq!(signed_decimal(i64::MIN), i64::MIN.to_string());
    assert_eq!(signed_decimal(7), "7");
    assert_eq!(parse_u64("18446744073709551615"), Some(u64::MAX));
    assert_eq!(parse_u64("18446744073709551616"), None);
    assert_eq!(parse_u64("+7"), Some(7));
    assert_eq!(parse_u64(""), None);
    assert_eq!(take_chars("äöü", 2), "äö");
    let mut state = 0;
    assert_eq!(splitmix64(&mut state), 0xE220_A839_7B1D_CDAF);
}
