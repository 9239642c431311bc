use fleet_drill::soak::faults::{cleanup_resources, fault_for_round, FaultKind};

#[test]
fn every_four_rounds_cover_every_fault_exactly_once() {
    for cycle in 0..100u64 {
        for kind in FaultKind::all() {
            let count = (1..=4u64)
                .filter(|offset| fault_for_round(42, cycle * 4 + offset) == kind)
                .count();
            assert_eq!(count, 1, "fault coverage drifted in cycle {cycle}");
        }
    }
}

#[test]
fn fault_descriptors_are_complete_and_cleanup_resources_are_derived() {
    let descriptors: Vec<(&str, &str, &str)> = FaultKind::all()
        .into_iter()
        .map(|kind| {
            let descriptor = kind.descriptor();
            (
                descriptor.metric_name,
                descriptor.resource_kind,
                descriptor.resource_plural,
            )
        })
        .collect();
    assert_eq!(
        descriptors,
        vec![
            ("network_partition", "NetworkChaos", "networkchaos"),
            ("io_error", "IOChaos", "iochaos"),
            ("agent_kill", "PodChaos", "podchaos"),
            ("controller_kill", "PodChaos", "podchaos"),
        ]
    );
    assert_eq!(
        cleanup_resources(),
        vec![
            ("IOChaos", "iochaos"),
            ("NetworkChaos", "networkchaos"),
            ("PodChaos", "podchaos"),
        ]
    );
}
