use fleet_drill::identity::{agent_resource_name, resource_name};

#[test]
fn demo_agent_names_match_dynamic_enrollment_names() {
    assert_eq!(agent_resource_name(0), "agent-53fa7c16911537893c54970e");
    assert_eq!(agent_resource_name(4), "agent-9f815b3ffd9a32a533b577d9");
}

#[test]
fn agent_names_match_dynamic_enrollment_names() {
    assert_eq!(agent_resource_name(0), "agent-53fa7c16911537893c54970e");
    assert_eq!(agent_resource_name(4), "agent-9f815b3ffd9a32a533b577d9");
}

#[test]
fn an_ordinal_past_a_byte_gets_its_own_name() {
    assert_eq!(agent_resource_name(256), resource_name("agent-256"));
    assert_ne!(agent_resource_name(256), agent_resource_name(0));
}
