use rustylens::cluster_manager::{
    after_file_removal, delete_statement, file_to_remove, insert_statement, new_record,
    timestamp, touch_statement, update_statement, validate_patch, Cluster, ClusterManager,
    ClusterPatch, FileRemoval, MigrationStep, SqlValue,
};
use rustylens::migration::MigrationNames;
use std::path::PathBuf;
use tempfile::TempDir;

fn manager_in(temp: &TempDir) -> ClusterManager {
    ClusterManager::new(temp.path().join("clusters.db")).unwrap()
}

fn add_simple(manager: &ClusterManager, name: &str, context: &str) -> Cluster {
    manager
        .add_cluster(
            name.to_string(),
            context.to_string(),
            PathBuf::from("/tmp/config.yaml"),
            None,
            None,
            vec![],
        )
        .unwrap()
}

#[test]
fn add_cluster_rejects_invalid_name() {
    let temp = TempDir::new().unwrap();
    let manager = ClusterManager::new(temp.path().join("clusters.db")).unwrap();
    let result = manager.add_cluster(
        "bad\nname".to_string(),
        "valid-context".to_string(),
        PathBuf::from("/tmp/config.yaml"),
        None,
        None,
        vec![],
    );
    assert!(result.is_err());
}

#[test]
fn add_cluster_rejects_duplicate_tags() {
    let temp = TempDir::new().unwrap();
    let manager = ClusterManager::new(temp.path().join("clusters.db")).unwrap();
    let result = manager.add_cluster(
        "valid".to_string(),
        "valid-context".to_string(),
        PathBuf::from("/tmp/config.yaml"),
        None,
        None,
        vec!["prod".to_string(), "prod".to_string()],
    );
    assert!(result.is_err());
}

#[test]
fn update_cluster_rejects_invalid_description() {
    let temp = TempDir::new().unwrap();
    let manager = ClusterManager::new(temp.path().join("clusters.db")).unwrap();
    let cluster = manager
        .add_cluster(
            "valid".to_string(),
            "valid-context".to_string(),
            PathBuf::from("/tmp/config.yaml"),
            None,
            None,
            vec!["prod".to_string()],
        )
        .unwrap();

    let result = manager.update_cluster(
        &cluster.id,
        None,
        None,
        Some(Some("bad\u{0007}".to_string())),
        None,
    );
    assert!(result.is_err());
}

#[test]
fn add_cluster_returns_full_record() {
    let temp = TempDir::new().unwrap();
    let manager = manager_in(&temp);
    let cluster = manager
        .add_cluster(
            "staging".to_string(),
            "staging-ctx".to_string(),
            PathBuf::from("/tmp/staging.yaml"),
            None,
            None,
            vec!["team-a".to_string()],
        )
        .unwrap();
    assert_eq!(cluster.id.len(), 36);
    assert!(cluster.id.chars().all(|c| c == '-' || c.is_ascii_hexdigit()));
    assert_eq!(cluster.name, "staging");
    assert_eq!(cluster.context_name, "staging-ctx");
    assert_eq!(cluster.config_path, "/tmp/staging.yaml");
    assert_eq!(cluster.tags, "[\"team-a\"]");
    let tags: Vec<String> = serde_json::from_str(&cluster.tags).unwrap();
    assert_eq!(tags, vec!["team-a".to_string()]);
    assert_eq!(cluster.created_at, cluster.last_accessed);
    assert!(cluster.created_at > 0);

    let stored = manager.get_cluster(&cluster.id).unwrap().unwrap();
    assert_eq!(stored.name, "staging");
    assert_eq!(stored.tags, "[\"team-a\"]");
    assert_eq!(stored.created_at, cluster.created_at);
    assert_eq!(stored.icon, None);
}

#[test]
fn add_cluster_gives_fresh_ids() {
    let temp = TempDir::new().unwrap();
    let manager = manager_in(&temp);
    let a = add_simple(&manager, "one", "ctx-one");
    let b = add_simple(&manager, "two", "ctx-two");
    assert_ne!(a.id, b.id);
    assert_eq!(manager.list_clusters().unwrap().len(), 2);
}

#[test]
fn add_cluster_stores_trimmed_fields() {
    let temp = TempDir::new().unwrap();
    let manager = manager_in(&temp);
    let cluster = manager
        .add_cluster(
            "  prod-cluster  ".to_string(),
            " prod ".to_string(),
            PathBuf::from("/tmp/p.yaml"),
            Some("rocket".to_string()),
            Some("   ".to_string()),
            vec![" a ".to_string(), "b".to_string()],
        )
        .unwrap();
    assert_eq!(cluster.name, "prod-cluster");
    assert_eq!(cluster.context_name, "prod");
    assert_eq!(cluster.description, None);
    assert_eq!(cluster.icon, Some("rocket".to_string()));
    assert_eq!(cluster.tags, "[\"a\",\"b\"]");
}

#[test]
fn rejected_add_stores_nothing() {
    let temp = TempDir::new().unwrap();
    let manager = manager_in(&temp);
    let err = manager
        .add_cluster(
            "ok".to_string(),
            "".to_string(),
            PathBuf::from("/tmp/p.yaml"),
            None,
            None,
            vec![],
        )
        .unwrap_err();
    assert_eq!(err, "Context name cannot be empty");
    assert!(manager.list_clusters().unwrap().is_empty());
}

#[test]
fn update_with_duplicate_tags_leaves_record_unchanged() {
    let temp = TempDir::new().unwrap();
    let manager = manager_in(&temp);
    let cluster = manager
        .add_cluster(
            "valid".to_string(),
            "valid-context".to_string(),
            PathBuf::from("/tmp/config.yaml"),
            None,
            Some("first".to_string()),
            vec!["prod".to_string()],
        )
        .unwrap();
    let err = manager
        .update_cluster(
            &cluster.id,
            Some("renamed".to_string()),
            None,
            None,
            Some(vec!["a".to_string(), "a".to_string()]),
        )
        .unwrap_err();
    assert_eq!(err, "Duplicate tag 'a'");
    let stored = manager.get_cluster(&cluster.id).unwrap().unwrap();
    assert_eq!(stored.name, "valid");
    assert_eq!(stored.tags, "[\"prod\"]");
    assert_eq!(stored.description, Some("first".to_string()));
}

#[test]
fn update_changes_only_supplied_fields() {
    let temp = TempDir::new().unwrap();
    let manager = manager_in(&temp);
    let cluster = manager
        .add_cluster(
            "valid".to_string(),
            "valid-context".to_string(),
            PathBuf::from("/tmp/config.yaml"),
            Some("icon-a".to_string()),
            Some("text".to_string()),
            vec!["prod".to_string()],
        )
        .unwrap();
    manager
        .update_cluster(&cluster.id, Some("  new name ".to_string()), None, None, None)
        .unwrap();
    let stored = manager.get_cluster(&cluster.id).unwrap().unwrap();
    assert_eq!(stored.name, "new name");
    assert_eq!(stored.icon, Some("icon-a".to_string()));
    assert_eq!(stored.description, Some("text".to_string()));
    assert_eq!(stored.tags, "[\"prod\"]");

    manager
        .update_cluster(&cluster.id, None, Some(None), Some(None), Some(vec![]))
        .unwrap();
    let stored = manager.get_cluster(&cluster.id).unwrap().unwrap();
    assert_eq!(stored.name, "new name");
    assert_eq!(stored.icon, None);
    assert_eq!(stored.description, None);
    assert_eq!(stored.tags, "[]");
}

#[test]
fn update_without_fields_is_a_no_op() {
    let temp = TempDir::new().unwrap();
    let manager = manager_in(&temp);
    let cluster = add_simple(&manager, "valid", "valid-context");
    manager.update_cluster(&cluster.id, None, None, None, None).unwrap();
    manager.update_cluster("no-such-id", None, None, None, None).unwrap();
    let stored = manager.get_cluster(&cluster.id).unwrap().unwrap();
    assert_eq!(stored.name, "valid");
}

#[test]
fn get_of_unknown_id_is_absent() {
    let temp = TempDir::new().unwrap();
    let manager = manager_in(&temp);
    assert!(manager.get_cluster("missing").unwrap().is_none());
}

#[test]
fn list_puts_most_recently_accessed_first() {
    let temp = TempDir::new().unwrap();
    let manager = manager_in(&temp);
    let a = add_simple(&manager, "a", "ctx-a");
    let b = add_simple(&manager, "b", "ctx-b");
    assert_ne!(a.id, b.id);
    manager.update_last_accessed(&b.id).unwrap();
    let listed = manager.list_clusters().unwrap();
    assert_eq!(listed.len(), 2);
    assert!(listed[0].last_accessed >= listed[1].last_accessed);
}

#[test]
fn delete_removes_the_row_and_is_idempotent() {
    let temp = TempDir::new().unwrap();
    let manager = manager_in(&temp);
    let cluster = add_simple(&manager, "valid", "valid-context");
    let found = manager.get_cluster(&cluster.id).unwrap();
    assert_eq!(file_to_remove(&found), Some("/tmp/config.yaml".to_string()));
    assert!(after_file_removal(FileRemoval::Missing).is_ok());
    manager.delete_cluster(&cluster.id).unwrap();
    assert!(manager.get_cluster(&cluster.id).unwrap().is_none());
    manager.delete_cluster(&cluster.id).unwrap();
}

#[test]
fn file_removal_outcomes() {
    assert!(after_file_removal(FileRemoval::Removed).is_ok());
    assert!(after_file_removal(FileRemoval::Missing).is_ok());
    assert_eq!(
        after_file_removal(FileRemoval::Failed("permission denied".to_string())).unwrap_err(),
        "Failed to delete config file: permission denied"
    );
    assert_eq!(file_to_remove(&None), None);
}

#[test]
fn new_record_holds_given_id_and_time() {
    let record = new_record(
        "id-1".to_string(),
        1700000000,
        " staging ".to_string(),
        "staging-ctx".to_string(),
        "/tmp/s.yaml".to_string(),
        None,
        Some(" about ".to_string()),
        vec!["team-a".to_string(), "x/y".to_string()],
    )
    .unwrap();
    assert_eq!(record.id, "id-1");
    assert_eq!(record.name, "staging");
    assert_eq!(record.description, Some("about".to_string()));
    assert_eq!(record.tags, "[\"team-a\",\"x/y\"]");
    assert_eq!(record.created_at, 1700000000);
    assert_eq!(record.last_accessed, 1700000000);
}

#[test]
fn new_record_reports_first_invalid_field() {
    let err = new_record(
        "id".to_string(),
        1,
        "".to_string(),
        "".to_string(),
        "/p".to_string(),
        None,
        None,
        vec!["".to_string()],
    )
    .unwrap_err();
    assert_eq!(err, "Cluster name cannot be empty");
    let err = new_record(
        "id".to_string(),
        1,
        "ok".to_string(),
        "ok".to_string(),
        "/p".to_string(),
        None,
        Some("x\u{0001}".to_string()),
        vec!["".to_string()],
    )
    .unwrap_err();
    assert_eq!(err, "Description contains invalid control characters");
}

#[test]
fn timestamps_from_elapsed_seconds() {
    assert_eq!(timestamp(None), 0);
    assert_eq!(timestamp(Some(0)), 0);
    assert_eq!(timestamp(Some(1700000000)), 1700000000);
}

#[test]
fn insert_statement_binds_every_column() {
    let statement = insert_statement(&Cluster {
        id: "i".to_string(),
        name: "n".to_string(),
        context_name: "c".to_string(),
        config_path: "/p".to_string(),
        icon: None,
        description: Some("d".to_string()),
        tags: "[]".to_string(),
        created_at: 5,
        last_accessed: 6,
    });
    assert_eq!(statement.params.len(), 9);
    assert!(matches!(&statement.params[0], SqlValue::Text(t) if t == "i"));
    assert!(matches!(statement.params[4], SqlValue::Null));
    assert!(matches!(&statement.params[5], SqlValue::Text(t) if t == "d"));
    assert!(matches!(statement.params[7], SqlValue::Integer(5)));
    assert!(matches!(statement.params[8], SqlValue::Integer(6)));
}

#[test]
fn statements_bind_values_in_order() {
    let touch = touch_statement("abc", 42);
    assert_eq!(touch.sql, "UPDATE clusters SET last_accessed = ?1 WHERE id = ?2");
    assert!(matches!(touch.params[0], SqlValue::Integer(42)));
    assert!(matches!(&touch.params[1], SqlValue::Text(t) if t == "abc"));
    let delete = delete_statement("abc");
    assert_eq!(delete.sql, "DELETE FROM clusters WHERE id = ?1");
    assert_eq!(delete.params.len(), 1);
}

#[test]
fn update_statement_lists_supplied_fields() {
    let patch = ClusterPatch {
        name: Some("n".to_string()),
        icon: Some(None),
        description: None,
        tags: Some("[]".to_string()),
    };
    let statement = update_statement("the-id", &patch).unwrap();
    assert_eq!(statement.sql, "UPDATE clusters SET name = ?, icon = ?, tags = ? WHERE id = ?");
    assert_eq!(statement.params.len(), 4);
    assert!(matches!(&statement.params[0], SqlValue::Text(t) if t == "n"));
    assert!(matches!(statement.params[1], SqlValue::Null));
    assert!(matches!(&statement.params[2], SqlValue::Text(t) if t == "[]"));
    assert!(matches!(&statement.params[3], SqlValue::Text(t) if t == "the-id"));

    let empty = ClusterPatch { name: None, icon: None, description: None, tags: None };
    assert!(update_statement("the-id", &empty).is_none());

    let one = ClusterPatch { name: None, icon: None, description: Some(None), tags: None };
    assert_eq!(
        update_statement("x", &one).unwrap().sql,
        "UPDATE clusters SET description = ? WHERE id = ?"
    );
}

#[test]
fn validate_patch_validates_supplied_fields_in_order() {
    let patch = validate_patch(
        Some(" a ".to_string()),
        Some(Some("i".to_string())),
        Some(Some("  ".to_string())),
        Some(vec!["t".to_string()]),
    )
    .unwrap();
    assert_eq!(patch.name, Some("a".to_string()));
    assert_eq!(patch.icon, Some(Some("i".to_string())));
    assert_eq!(patch.description, Some(None));
    assert_eq!(patch.tags, Some("[\"t\"]".to_string()));
    let err = validate_patch(
        Some("".to_string()),
        None,
        Some(Some("\u{0001}".to_string())),
        None,
    )
    .unwrap_err();
    assert_eq!(err, "Cluster name cannot be empty");
}

#[test]
fn migration_registers_a_context_once() {
    let temp = TempDir::new().unwrap();
    let manager = manager_in(&temp);
    let step = manager.migration_step(" legacy-ctx ").unwrap();
    let (id, names) = match step {
        MigrationStep::Extract { id, names } => (id, names),
        _ => panic!("a new context is to be extracted"),
    };
    assert_eq!(id.len(), 36);
    assert_eq!(names.name, "legacy-ctx");
    assert_eq!(names.context_name, "legacy-ctx");
    manager
        .register_migrated(&id, &names, &PathBuf::from("/tmp/legacy.yaml"))
        .unwrap();
    let stored = manager.get_cluster(&id).unwrap().unwrap();
    assert_eq!(stored.context_name, "legacy-ctx");
    assert_eq!(stored.config_path, "/tmp/legacy.yaml");
    assert_eq!(stored.tags, "[]");
    assert_eq!(stored.created_at, stored.last_accessed);
    assert!(matches!(
        manager.migration_step("legacy-ctx").unwrap(),
        MigrationStep::AlreadyRegistered
    ));
    assert_eq!(manager.list_clusters().unwrap().len(), 1);
}

#[test]
fn migration_skips_invalid_names() {
    let temp = TempDir::new().unwrap();
    let manager = manager_in(&temp);
    match manager.migration_step("bad\nname").unwrap() {
        MigrationStep::Skip(line) => {
            assert!(line.starts_with("Skipping invalid context name 'bad\nname': "));
        }
        _ => panic!("an invalid name is skipped"),
    }
    let names = MigrationNames { name: "n".to_string(), context_name: "c".to_string() };
    assert_eq!(names.name, "n");
}

fn sweep_over(manager: &ClusterManager, discovered: &[&str]) -> Vec<String> {
    let mut migrated = Vec::new();
    for raw in discovered {
        let (id, names) = match manager.migration_step(raw).unwrap() {
            MigrationStep::Extract { id, names } => (id, names),
            _ => continue,
        };
        let path = PathBuf::from(format!("/managed/{}.yaml", id));
        manager.register_migrated(&id, &names, &path).unwrap();
        migrated.push(names.context_name);
    }
    migrated
}

#[test]
fn a_second_sweep_migrates_nothing() {
    let temp = TempDir::new().unwrap();
    let manager = manager_in(&temp);
    let discovered = ["alpha", " beta ", "alpha", "bad\nname", "beta"];
    let first = sweep_over(&manager, &discovered);
    assert_eq!(first, vec!["alpha".to_string(), "beta".to_string()]);
    let after_first = manager.list_clusters().unwrap();
    assert_eq!(after_first.len(), 2);
    let second = sweep_over(&manager, &discovered);
    assert!(second.is_empty());
    let after_second = manager.list_clusters().unwrap();
    assert_eq!(after_second.len(), 2);
    let mut before: Vec<String> = after_first.into_iter().map(|c| c.id).collect();
    let mut after: Vec<String> = after_second.into_iter().map(|c| c.id).collect();
    before.sort();
    after.sort();
    assert_eq!(before, after);
}

#[test]
fn a_sweep_passes_over_what_is_registered() {
    let temp = TempDir::new().unwrap();
    let manager = manager_in(&temp);
    manager
        .add_cluster(
            "Mine".to_string(),
            "alpha".to_string(),
            PathBuf::from("/p/alpha.yaml"),
            None,
            None,
            vec![],
        )
        .unwrap();
    let migrated = sweep_over(&manager, &["alpha", "gamma"]);
    assert_eq!(migrated, vec!["gamma".to_string()]);
    let all = manager.list_clusters().unwrap();
    assert_eq!(all.iter().filter(|c| c.context_name == "alpha").count(), 1);
    assert_eq!(all.iter().filter(|c| c.context_name == "gamma").count(), 1);
}
