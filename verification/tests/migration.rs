use rustylens::migration::{is_registered, migration_names};

#[test]
fn migration_names_are_the_validated_context_name() {
    let names = migration_names("  dev-cluster ").unwrap();
    assert_eq!(names.name, "dev-cluster");
    assert_eq!(names.context_name, "dev-cluster");
}

#[test]
fn migration_names_report_the_reason() {
    assert_eq!(
        migration_names("  ").unwrap_err(),
        "Skipping invalid context name '  ': Context name cannot be empty"
    );
    let long = "a".repeat(150);
    assert_eq!(
        migration_names(&long).unwrap_err(),
        format!(
            "Skipping invalid cluster name '{}': Cluster name must be 100 characters or fewer",
            long
        )
    );
}

#[test]
fn registered_means_a_positive_count() {
    assert!(is_registered(Some(1)));
    assert!(is_registered(Some(7)));
    assert!(!is_registered(Some(0)));
    assert!(!is_registered(None));
}
