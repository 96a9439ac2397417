use rustylens::k8s::{
    calculate_age, container_totals, descending_order, filter_deployment_events, format_age,
    map_pod_to_deployment_pod_info, ratio_text, signed_decimal, ContainerState, EventRecord,
    PodRecord,
};

fn create_mock_event(
    name: &str,
    kind: &str,
    uid: Option<&str>,
    event_type: &str,
    reason: &str,
    message: &str,
    count: i32,
    last_timestamp: Option<&str>,
) -> EventRecord {
    EventRecord {
        involved_name: Some(name.to_string()),
        involved_kind: Some(kind.to_string()),
        involved_uid: uid.map(|s| s.to_string()),
        event_type: Some(event_type.to_string()),
        reason: Some(reason.to_string()),
        message: Some(message.to_string()),
        count: Some(count),
        first_timestamp: last_timestamp.map(|ts| ts.to_string()),
        last_timestamp: last_timestamp.map(|ts| ts.to_string()),
        source_component: Some("deployment-controller".to_string()),
    }
}

fn create_mock_pod(
    name: &str,
    namespace: &str,
    phase: &str,
    ready_containers: usize,
    total_containers: usize,
    restarts: i32,
    node: Option<&str>,
    pod_ip: Option<&str>,
) -> PodRecord {
    let containers: Vec<ContainerState> = (0..total_containers)
        .map(|i| ContainerState {
            ready: i < ready_containers,
            restart_count: if i == 0 { restarts } else { 0 },
        })
        .collect();
    PodRecord {
        name: Some(name.to_string()),
        namespace: Some(namespace.to_string()),
        phase: Some(phase.to_string()),
        seconds_since_creation: Some(0),
        containers: if total_containers > 0 { Some(containers) } else { None },
        node_name: node.map(|n| n.to_string()),
        pod_ip: pod_ip.map(|ip| ip.to_string()),
    }
}

#[test]
fn test_filter_deployment_events_with_multiple_events() {
    let events = vec![
        create_mock_event(
            "my-deployment",
            "Deployment",
            Some("uid-123"),
            "Normal",
            "ScalingReplicaSet",
            "Scaled up replica set my-deployment-abc to 3",
            1,
            Some("2024-01-01T02:00:00Z"),
        ),
        create_mock_event(
            "my-deployment",
            "Deployment",
            Some("uid-123"),
            "Warning",
            "FailedCreate",
            "Error creating pods",
            2,
            Some("2024-01-01T01:00:00Z"),
        ),
        create_mock_event(
            "my-deployment",
            "Deployment",
            Some("uid-123"),
            "Normal",
            "ScalingReplicaSet",
            "Scaled down replica set my-deployment-xyz to 0",
            1,
            Some("2024-01-01T03:00:00Z"),
        ),
    ];

    let result = filter_deployment_events(events, "my-deployment", Some("uid-123"));

    assert_eq!(result.len(), 3);
    // Should be sorted by last_timestamp descending (newest first)
    assert_eq!(result[0].reason, "ScalingReplicaSet");
    assert!(result[0].message.contains("Scaled down"));
    assert_eq!(result[1].reason, "ScalingReplicaSet");
    assert!(result[1].message.contains("Scaled up"));
    assert_eq!(result[2].reason, "FailedCreate");
}

#[test]
fn test_filter_deployment_events_with_no_events() {
    let events: Vec<EventRecord> = vec![];

    let result = filter_deployment_events(events, "my-deployment", Some("uid-123"));

    assert_eq!(result.len(), 0);
}

#[test]
fn test_filter_deployment_events_filters_by_involved_object() {
    let events = vec![
        // Event for our deployment
        create_mock_event(
            "my-deployment",
            "Deployment",
            Some("uid-123"),
            "Normal",
            "ScalingReplicaSet",
            "Scaled up",
            1,
            Some("2024-01-01T01:00:00Z"),
        ),
        // Event for a different deployment (should be filtered out)
        create_mock_event(
            "other-deployment",
            "Deployment",
            Some("uid-456"),
            "Normal",
            "ScalingReplicaSet",
            "Other scaled up",
            1,
            Some("2024-01-01T02:00:00Z"),
        ),
        // Event for a Pod (should be filtered out)
        create_mock_event(
            "my-deployment-pod-abc",
            "Pod",
            Some("uid-789"),
            "Normal",
            "Scheduled",
            "Successfully assigned",
            1,
            Some("2024-01-01T03:00:00Z"),
        ),
        // Event for a ReplicaSet (should be filtered out)
        create_mock_event(
            "my-deployment-rs-abc",
            "ReplicaSet",
            Some("uid-101"),
            "Normal",
            "SuccessfulCreate",
            "Created pod",
            1,
            Some("2024-01-01T04:00:00Z"),
        ),
    ];

    let result = filter_deployment_events(events, "my-deployment", Some("uid-123"));

    assert_eq!(result.len(), 1);
    assert_eq!(result[0].message, "Scaled up");
}

#[test]
fn test_filter_deployment_events_handles_event_types() {
    let events = vec![
        create_mock_event(
            "my-deployment",
            "Deployment",
            Some("uid-123"),
            "Normal",
            "ScalingReplicaSet",
            "Scaled up",
            1,
            Some("2024-01-01T01:00:00Z"),
        ),
        create_mock_event(
            "my-deployment",
            "Deployment",
            Some("uid-123"),
            "Warning",
            "FailedCreate",
            "Error creating",
            5,
            Some("2024-01-01T02:00:00Z"),
        ),
    ];

    let result = filter_deployment_events(events, "my-deployment", Some("uid-123"));

    assert_eq!(result.len(), 2);

    // Find the Warning event
    let warning_event = result.iter().find(|e| e.event_type == "Warning").unwrap();
    assert_eq!(warning_event.reason, "FailedCreate");
    assert_eq!(warning_event.count, 5);

    // Find the Normal event
    let normal_event = result.iter().find(|e| e.event_type == "Normal").unwrap();
    assert_eq!(normal_event.reason, "ScalingReplicaSet");
    assert_eq!(normal_event.count, 1);
}

#[test]
fn test_filter_deployment_events_timestamp_sorting() {
    let events = vec![
        create_mock_event(
            "my-deployment",
            "Deployment",
            Some("uid-123"),
            "Normal",
            "Event1",
            "First event",
            1,
            Some("2024-01-01T01:00:00Z"),
        ),
        create_mock_event(
            "my-deployment",
            "Deployment",
            Some("uid-123"),
            "Normal",
            "Event3",
            "Third event (newest)",
            1,
            Some("2024-01-01T03:00:00Z"),
        ),
        create_mock_event(
            "my-deployment",
            "Deployment",
            Some("uid-123"),
            "Normal",
            "Event2",
            "Second event",
            1,
            Some("2024-01-01T02:00:00Z"),
        ),
    ];

    let result = filter_deployment_events(events, "my-deployment", Some("uid-123"));

    assert_eq!(result.len(), 3);
    // Verify descending order (newest first)
    assert_eq!(result[0].reason, "Event3");
    assert_eq!(result[1].reason, "Event2");
    assert_eq!(result[2].reason, "Event1");
}

#[test]
fn test_filter_deployment_events_without_uid_filter() {
    // When UID is not provided, should still filter by name and kind
    let events = vec![
        create_mock_event(
            "my-deployment",
            "Deployment",
            Some("uid-123"),
            "Normal",
            "ScalingReplicaSet",
            "Event 1",
            1,
            Some("2024-01-01T01:00:00Z"),
        ),
        create_mock_event(
            "my-deployment",
            "Deployment",
            Some("uid-456"), // Different UID
            "Normal",
            "ScalingReplicaSet",
            "Event 2",
            1,
            Some("2024-01-01T02:00:00Z"),
        ),
    ];

    // When no UID filter is provided, both events should match
    let result = filter_deployment_events(events, "my-deployment", None);

    assert_eq!(result.len(), 2);
}

#[test]
fn test_filter_deployment_events_handles_missing_fields() {
    // Test with an event that has minimal fields set
    let event = EventRecord {
        involved_name: Some("my-deployment".to_string()),
        involved_kind: Some("Deployment".to_string()),
        involved_uid: Some("uid-123".to_string()),
        event_type: None, // Missing type
        reason: None,     // Missing reason
        message: None,    // Missing message
        count: None,      // Missing count
        first_timestamp: None,
        last_timestamp: None,
        source_component: None, // Missing source
    };

    let result = filter_deployment_events(vec![event], "my-deployment", Some("uid-123"));

    assert_eq!(result.len(), 1);
    assert_eq!(result[0].event_type, "Normal"); // Default value
    assert_eq!(result[0].reason, ""); // Default empty
    assert_eq!(result[0].message, ""); // Default empty
    assert_eq!(result[0].count, 1); // Default 1
    assert_eq!(result[0].source, "unknown"); // Default unknown
    assert!(result[0].first_timestamp.is_none());
    assert!(result[0].last_timestamp.is_none());
}

#[test]
fn events_of_the_same_time_keep_their_order_and_undated_ones_come_last() {
    let events = vec![
        create_mock_event("d", "Deployment", None, "Normal", "A", "", 1, Some("2024-01-01T01:00:00Z")),
        create_mock_event("d", "Deployment", None, "Normal", "B", "", 1, None),
        create_mock_event("d", "Deployment", None, "Normal", "C", "", 1, Some("2024-01-01T01:00:00Z")),
        create_mock_event("d", "Deployment", None, "Normal", "D", "", 1, Some("2024-01-02T00:00:00Z")),
        create_mock_event("d", "Deployment", None, "Normal", "E", "", 1, None),
    ];
    let reasons: Vec<String> =
        filter_deployment_events(events, "d", None).into_iter().map(|e| e.reason).collect();
    assert_eq!(reasons, vec!["D", "A", "C", "B", "E"]);
}

#[test]
fn descending_order_is_stable() {
    let keys = vec![
        Some("b".to_string()),
        None,
        Some("c".to_string()),
        Some("b".to_string()),
        Some("ba".to_string()),
        Some("".to_string()),
    ];
    assert_eq!(descending_order(&keys), vec![2, 4, 0, 3, 5, 1]);
    assert_eq!(descending_order(&vec![]), Vec::<usize>::new());
}

#[test]
fn test_map_pod_to_deployment_pod_info_running() {
    let pod = create_mock_pod(
        "nginx-abc123",
        "default",
        "Running",
        1,
        1,
        0,
        Some("worker-1"),
        Some("10.244.0.5"),
    );

    let info = map_pod_to_deployment_pod_info(pod);

    assert_eq!(info.name, "nginx-abc123");
    assert_eq!(info.namespace, "default");
    assert_eq!(info.status, "Running");
    assert_eq!(info.ready, "1/1");
    assert_eq!(info.restarts, 0);
    assert_eq!(info.node, "worker-1");
    assert_eq!(info.pod_ip, "10.244.0.5");
}

#[test]
fn test_map_pod_to_deployment_pod_info_pending() {
    let pod = create_mock_pod("pending-pod", "staging", "Pending", 0, 2, 0, None, None);

    let info = map_pod_to_deployment_pod_info(pod);

    assert_eq!(info.name, "pending-pod");
    assert_eq!(info.status, "Pending");
    assert_eq!(info.ready, "0/2");
    assert_eq!(info.node, "-");
    assert_eq!(info.pod_ip, "-");
}

#[test]
fn test_map_pod_to_deployment_pod_info_with_restarts() {
    let pod = create_mock_pod(
        "crash-pod",
        "production",
        "Running",
        1,
        1,
        5,
        Some("worker-2"),
        Some("10.244.1.10"),
    );

    let info = map_pod_to_deployment_pod_info(pod);

    assert_eq!(info.restarts, 5);
    assert_eq!(info.ready, "1/1");
}

#[test]
fn test_map_pod_to_deployment_pod_info_multi_container() {
    let pod = create_mock_pod(
        "multi-container",
        "default",
        "Running",
        2,
        3,
        3,
        Some("worker-3"),
        Some("10.244.2.20"),
    );

    let info = map_pod_to_deployment_pod_info(pod);

    assert_eq!(info.ready, "2/3");
    assert_eq!(info.restarts, 3);
}

#[test]
fn test_map_pod_to_deployment_pod_info_no_containers() {
    let pod = create_mock_pod("empty-pod", "default", "Pending", 0, 0, 0, None, None);

    let info = map_pod_to_deployment_pod_info(pod);

    assert_eq!(info.ready, "0/0");
    assert_eq!(info.restarts, 0);
}

#[test]
fn test_map_pod_to_deployment_pod_info_age_format() {
    // Test that age is formatted (exact value depends on current time, but format should be valid)
    let pod = create_mock_pod(
        "test-pod",
        "default",
        "Running",
        1,
        1,
        0,
        Some("worker-1"),
        Some("10.244.0.1"),
    );

    let info = map_pod_to_deployment_pod_info(pod);

    // Age should be in format like "1d", "2h", "30m", "45s", or "-"
    assert!(
        info.age.ends_with('d')
            || info.age.ends_with('h')
            || info.age.ends_with('m')
            || info.age.ends_with('s')
            || info.age == "-"
    );
}

#[test]
fn a_pod_without_anything_shows_defaults() {
    let info = map_pod_to_deployment_pod_info(PodRecord {
        name: None,
        namespace: None,
        phase: None,
        seconds_since_creation: None,
        containers: None,
        node_name: None,
        pod_ip: None,
    });
    assert_eq!(info.name, "");
    assert_eq!(info.namespace, "");
    assert_eq!(info.status, "Unknown");
    assert_eq!(info.age, "-");
    assert_eq!(info.ready, "0/0");
    assert_eq!(info.restarts, 0);
}

#[test]
fn container_totals_count_and_add() {
    let containers = vec![
        ContainerState { ready: true, restart_count: 2 },
        ContainerState { ready: false, restart_count: 40 },
        ContainerState { ready: true, restart_count: 0 },
    ];
    assert_eq!(container_totals(&containers), (2, 42));
    let wrapping = vec![
        ContainerState { ready: false, restart_count: i32::MAX },
        ContainerState { ready: false, restart_count: 1 },
    ];
    assert_eq!(container_totals(&wrapping), (0, i32::MIN));
}

#[test]
fn ages_are_written_in_the_largest_whole_unit() {
    assert_eq!(format_age(0), "0s");
    assert_eq!(format_age(59), "59s");
    assert_eq!(format_age(60), "1m");
    assert_eq!(format_age(3599), "59m");
    assert_eq!(format_age(3600), "1h");
    assert_eq!(format_age(86399), "23h");
    assert_eq!(format_age(86400), "1d");
    assert_eq!(format_age(86400 * 30 + 5), "30d");
    assert_eq!(format_age(-5), "-5s");
    assert_eq!(format_age(-100000), "-100000s");
    assert_eq!(calculate_age(Some(7200)), "2h");
    assert_eq!(calculate_age(None), "-");
}

#[test]
fn signed_numbers_and_ratios() {
    assert_eq!(signed_decimal(0), "0");
    assert_eq!(signed_decimal(-1), "-1");
    assert_eq!(signed_decimal(i64::MIN), "-9223372036854775808");
    assert_eq!(signed_decimal(i64::MAX), "9223372036854775807");
    assert_eq!(ratio_text(2, 3), "2/3");
    assert_eq!(ratio_text(0, 1), "0/1");
}
