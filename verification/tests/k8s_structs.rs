use rustylens::k8s::{DeploymentCondition, DeploymentDetails, DeploymentPodInfo, K8sEventInfo};
use std::collections::HashMap;

#[test]
fn test_k8s_event_info_struct_fields() {
    let event_info = K8sEventInfo {
        event_type: "Warning".to_string(),
        reason: "FailedCreate".to_string(),
        message: "Error creating pods".to_string(),
        count: 3,
        first_timestamp: Some("2024-01-01T00:00:00Z".to_string()),
        last_timestamp: Some("2024-01-01T01:00:00Z".to_string()),
        source: "deployment-controller".to_string(),
    };

    assert_eq!(event_info.event_type, "Warning");
    assert_eq!(event_info.reason, "FailedCreate");
    assert_eq!(event_info.message, "Error creating pods");
    assert_eq!(event_info.count, 3);
    assert_eq!(
        event_info.first_timestamp,
        Some("2024-01-01T00:00:00Z".to_string())
    );
    assert_eq!(
        event_info.last_timestamp,
        Some("2024-01-01T01:00:00Z".to_string())
    );
    assert_eq!(event_info.source, "deployment-controller");
}

#[test]
fn test_deployment_details_multiple_images() {
    let details = DeploymentDetails {
        name: "multi-container".to_string(),
        namespace: "default".to_string(),
        uid: "uid-123".to_string(),
        created_at: "2024-01-15T10:30:00Z".to_string(),
        labels: HashMap::new(),
        annotations: HashMap::new(),
        replicas_desired: 2,
        replicas_updated: 2,
        replicas_total: 2,
        replicas_available: 2,
        replicas_unavailable: 0,
        strategy_type: "RollingUpdate".to_string(),
        selector: HashMap::new(),
        conditions: vec![],
        images: vec![
            "nginx:1.19".to_string(),
            "redis:6.0".to_string(),
            "fluent/fluentd:v1.12".to_string(),
        ],
    };

    assert_eq!(details.images.len(), 3);
    assert!(details.images.contains(&"nginx:1.19".to_string()));
    assert!(details.images.contains(&"redis:6.0".to_string()));
}

#[test]
fn test_deployment_details_multiple_conditions() {
    let details = DeploymentDetails {
        name: "test-deploy".to_string(),
        namespace: "default".to_string(),
        uid: "uid-456".to_string(),
        created_at: "2024-01-15T10:30:00Z".to_string(),
        labels: HashMap::new(),
        annotations: HashMap::new(),
        replicas_desired: 3,
        replicas_updated: 3,
        replicas_total: 3,
        replicas_available: 3,
        replicas_unavailable: 0,
        strategy_type: "RollingUpdate".to_string(),
        selector: HashMap::new(),
        conditions: vec![
            DeploymentCondition {
                condition_type: "Available".to_string(),
                status: "True".to_string(),
                reason: Some("MinimumReplicasAvailable".to_string()),
                message: None,
                last_transition_time: None,
            },
            DeploymentCondition {
                condition_type: "Progressing".to_string(),
                status: "True".to_string(),
                reason: Some("NewReplicaSetAvailable".to_string()),
                message: None,
                last_transition_time: None,
            },
        ],
        images: vec!["nginx:latest".to_string()],
    };

    assert_eq!(details.conditions.len(), 2);
    assert!(details.conditions.iter().any(|c| c.condition_type == "Available"));
    assert!(details.conditions.iter().any(|c| c.condition_type == "Progressing"));
}

#[test]
fn test_deployment_details_recreate_strategy() {
    let details = DeploymentDetails {
        name: "recreate-deploy".to_string(),
        namespace: "staging".to_string(),
        uid: "uid-789".to_string(),
        created_at: "2024-01-15T10:30:00Z".to_string(),
        labels: HashMap::new(),
        annotations: HashMap::new(),
        replicas_desired: 1,
        replicas_updated: 1,
        replicas_total: 1,
        replicas_available: 1,
        replicas_unavailable: 0,
        strategy_type: "Recreate".to_string(),
        selector: HashMap::new(),
        conditions: vec![],
        images: vec![],
    };

    assert_eq!(details.strategy_type, "Recreate");
}

#[test]
fn test_deployment_details_replica_mismatch() {
    // Test a deployment in the middle of a rollout
    let details = DeploymentDetails {
        name: "rolling-deploy".to_string(),
        namespace: "default".to_string(),
        uid: "uid-abc".to_string(),
        created_at: "2024-01-15T10:30:00Z".to_string(),
        labels: HashMap::new(),
        annotations: HashMap::new(),
        replicas_desired: 5,
        replicas_updated: 3,
        replicas_total: 6, // During rollout, may have more pods
        replicas_available: 4,
        replicas_unavailable: 2,
        strategy_type: "RollingUpdate".to_string(),
        selector: HashMap::new(),
        conditions: vec![],
        images: vec![],
    };

    // Verify the replica counts are preserved correctly
    assert_eq!(details.replicas_desired, 5);
    assert_eq!(details.replicas_updated, 3);
    assert_eq!(details.replicas_total, 6);
    assert_eq!(details.replicas_available, 4);
    assert_eq!(details.replicas_unavailable, 2);
}

#[test]
fn test_deployment_details_labels_and_selector_match() {
    let labels = HashMap::from([
        ("app".to_string(), "myapp".to_string()),
        ("version".to_string(), "v2".to_string()),
        ("team".to_string(), "backend".to_string()),
    ]);

    let selector = HashMap::from([
        ("app".to_string(), "myapp".to_string()),
    ]);

    let details = DeploymentDetails {
        name: "label-test".to_string(),
        namespace: "default".to_string(),
        uid: "uid-def".to_string(),
        created_at: "2024-01-15T10:30:00Z".to_string(),
        labels: labels.clone(),
        annotations: HashMap::new(),
        replicas_desired: 1,
        replicas_updated: 1,
        replicas_total: 1,
        replicas_available: 1,
        replicas_unavailable: 0,
        strategy_type: "RollingUpdate".to_string(),
        selector: selector.clone(),
        conditions: vec![],
        images: vec![],
    };

    // Verify labels contain all entries
    assert_eq!(details.labels.len(), 3);
    assert_eq!(details.labels.get("app"), Some(&"myapp".to_string()));

    // Verify selector is a subset of labels
    assert_eq!(details.selector.len(), 1);
    assert!(details.labels.contains_key("app"));
}

#[test]
fn test_deployment_pod_info_with_restarts() {
    let pod_info = DeploymentPodInfo {
        name: "crashloop-pod-xyz789".to_string(),
        namespace: "production".to_string(),
        status: "CrashLoopBackOff".to_string(),
        age: "2h".to_string(),
        ready: "0/1".to_string(),
        restarts: 15,
        node: "worker-node-2".to_string(),
        pod_ip: "10.244.1.10".to_string(),
    };

    assert_eq!(pod_info.restarts, 15);
    assert_eq!(pod_info.ready, "0/1");
    assert_eq!(pod_info.status, "CrashLoopBackOff");
}

#[test]
fn test_deployment_pod_info_pending_status() {
    let pod_info = DeploymentPodInfo {
        name: "pending-pod-def456".to_string(),
        namespace: "staging".to_string(),
        status: "Pending".to_string(),
        age: "30s".to_string(),
        ready: "0/2".to_string(),
        restarts: 0,
        node: "-".to_string(),
        pod_ip: "-".to_string(),
    };

    assert_eq!(pod_info.status, "Pending");
    assert_eq!(pod_info.node, "-");
    assert_eq!(pod_info.pod_ip, "-");
}

#[test]
fn test_deployment_pod_info_multi_container() {
    let pod_info = DeploymentPodInfo {
        name: "multi-container-pod".to_string(),
        namespace: "default".to_string(),
        status: "Running".to_string(),
        age: "1d".to_string(),
        ready: "3/3".to_string(),
        restarts: 2,
        node: "worker-node-3".to_string(),
        pod_ip: "10.244.2.15".to_string(),
    };

    assert_eq!(pod_info.ready, "3/3");
    assert_eq!(pod_info.restarts, 2);
}

#[test]
fn test_deployment_pod_info_all_fields_populated() {
    // Test that all fields are properly captured
    let pod_info = DeploymentPodInfo {
        name: "full-test-pod-abc123xyz".to_string(),
        namespace: "kube-system".to_string(),
        status: "Running".to_string(),
        age: "30d".to_string(),
        ready: "5/5".to_string(),
        restarts: 100,
        node: "master-node-01.cluster.local".to_string(),
        pod_ip: "192.168.1.100".to_string(),
    };

    // Verify all fields
    assert!(!pod_info.name.is_empty());
    assert!(!pod_info.namespace.is_empty());
    assert!(!pod_info.status.is_empty());
    assert!(!pod_info.age.is_empty());
    assert!(!pod_info.ready.is_empty());
    assert!(pod_info.restarts >= 0);
    assert!(!pod_info.node.is_empty());
    assert!(!pod_info.pod_ip.is_empty());
}
