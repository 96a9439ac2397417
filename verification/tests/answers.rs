use rustylens::cluster_manager::{
    count_statement, create_table_statement, list_statement, listing_outcome, lookup_outcome,
    lookup_statement, opening_failure, statement_outcome, step_for_count, Cluster, ListAnswer,
    LookupAnswer, MigrationStep, OpenAnswer, SqlValue, StatementAnswer,
};
use rustylens::migration::MigrationNames;
use rustylens::import::rendering_outcome;

fn cluster(id: &str, last_accessed: i64) -> Cluster {
    Cluster {
        id: id.to_string(),
        name: id.to_string(),
        context_name: id.to_string(),
        config_path: "/p".to_string(),
        icon: None,
        description: None,
        tags: "[]".to_string(),
        created_at: 0,
        last_accessed,
    }
}

fn ids(list: Vec<Cluster>) -> Vec<String> {
    list.into_iter().map(|c| c.id).collect()
}

#[test]
fn a_statement_that_ran_is_a_success_however_many_rows_changed() {
    assert!(statement_outcome("Failed to delete cluster: ", StatementAnswer::Changed(1)).is_ok());
    assert!(statement_outcome("Failed to delete cluster: ", StatementAnswer::Changed(0)).is_ok());
    assert_eq!(
        statement_outcome(
            "Failed to delete cluster: ",
            StatementAnswer::Failed("disk I/O error".to_string())
        )
        .unwrap_err(),
        "Failed to delete cluster: disk I/O error"
    );
    assert_eq!(
        statement_outcome(
            "Failed to update last_accessed: ",
            StatementAnswer::Locked("poisoned lock".to_string())
        )
        .unwrap_err(),
        "Database lock poisoned: poisoned lock"
    );
}

#[test]
fn opening_reports_the_step_that_failed() {
    assert_eq!(opening_failure(OpenAnswer::Ready), None);
    assert_eq!(
        opening_failure(OpenAnswer::NotOpened("no such directory".to_string())),
        Some("Failed to open database: no such directory".to_string())
    );
    assert_eq!(
        opening_failure(OpenAnswer::NoTable("read-only".to_string())),
        Some("Failed to create clusters table: read-only".to_string())
    );
}

#[test]
fn rows_are_listed_most_recent_first_and_equal_times_keep_their_order() {
    let rows = vec![
        cluster("a", 5),
        cluster("b", 9),
        cluster("c", 5),
        cluster("d", 1),
        cluster("e", 9),
    ];
    let listed = listing_outcome(ListAnswer::Rows(rows)).unwrap();
    assert_eq!(ids(listed), vec!["b", "e", "a", "c", "d"]);
    let in_order = vec![cluster("x", 3), cluster("y", 3), cluster("z", 2)];
    assert_eq!(
        ids(listing_outcome(ListAnswer::Rows(in_order)).unwrap()),
        vec!["x", "y", "z"]
    );
    assert!(listing_outcome(ListAnswer::Rows(vec![])).unwrap().is_empty());
}

#[test]
fn listing_reports_the_step_that_failed() {
    assert_eq!(
        listing_outcome(ListAnswer::Locked("p".to_string())).unwrap_err(),
        "Database lock poisoned: p"
    );
    assert_eq!(
        listing_outcome(ListAnswer::NotPrepared("p".to_string())).unwrap_err(),
        "Failed to prepare statement: p"
    );
    assert_eq!(
        listing_outcome(ListAnswer::NotQueried("q".to_string())).unwrap_err(),
        "Failed to query clusters: q"
    );
    assert_eq!(
        listing_outcome(ListAnswer::NotCollected("c".to_string())).unwrap_err(),
        "Failed to collect clusters: c"
    );
}

#[test]
fn lookups_return_the_row_or_its_absence() {
    let found = lookup_outcome(LookupAnswer::Found(Some(cluster("a", 1)))).unwrap();
    assert_eq!(found.unwrap().id, "a");
    assert!(lookup_outcome(LookupAnswer::Found(None)).unwrap().is_none());
    assert_eq!(
        lookup_outcome(LookupAnswer::Locked("p".to_string())).unwrap_err(),
        "Database lock poisoned: p"
    );
    assert_eq!(
        lookup_outcome(LookupAnswer::NotPrepared("p".to_string())).unwrap_err(),
        "Failed to prepare statement: p"
    );
    assert_eq!(
        lookup_outcome(LookupAnswer::NotQueried("q".to_string())).unwrap_err(),
        "Failed to query cluster: q"
    );
}

#[test]
fn rendering_hands_the_text_on_or_says_why_not() {
    assert_eq!(rendering_outcome(Ok("a: 1\n".to_string())).unwrap(), "a: 1\n");
    assert_eq!(
        rendering_outcome(Err("unsupported".to_string())).unwrap_err(),
        "Failed to serialize kubeconfig: unsupported"
    );
}

#[test]
fn statements_for_reading_and_for_the_table() {
    let create = create_table_statement();
    assert!(create.sql.starts_with("CREATE TABLE IF NOT EXISTS clusters ("));
    assert!(create.params.is_empty());
    let list = list_statement();
    assert!(list.sql.ends_with("FROM clusters ORDER BY last_accessed DESC"));
    assert!(list.params.is_empty());
    let lookup = lookup_statement("the-id");
    assert!(lookup.sql.ends_with("FROM clusters WHERE id = ?1"));
    assert_eq!(lookup.params.len(), 1);
    assert!(matches!(&lookup.params[0], SqlValue::Text(t) if t == "the-id"));
}

fn names_of(name: &str) -> MigrationNames {
    MigrationNames { name: name.to_string(), context_name: name.to_string() }
}

#[test]
fn the_count_is_asked_by_context_name() {
    let statement = count_statement("dev-ctx");
    assert_eq!(statement.sql, "SELECT COUNT(*) FROM clusters WHERE context_name = ?1");
    assert_eq!(statement.params.len(), 1);
    match &statement.params[0] {
        SqlValue::Text(t) => assert_eq!(t, "dev-ctx"),
        _ => panic!("the context name is bound as text"),
    }
}

#[test]
fn a_positive_count_means_nothing_is_to_do() {
    assert!(matches!(
        step_for_count(names_of("dev"), Some(1)),
        MigrationStep::AlreadyRegistered
    ));
    assert!(matches!(
        step_for_count(names_of("dev"), Some(3)),
        MigrationStep::AlreadyRegistered
    ));
}

#[test]
fn no_count_or_a_count_of_none_hands_the_context_out() {
    for count in [Some(0), None, Some(-1)] {
        match step_for_count(names_of("dev"), count) {
            MigrationStep::Extract { id, names } => {
                assert_eq!(names.name, "dev");
                assert_eq!(names.context_name, "dev");
                assert_eq!(id.len(), 36);
                assert!(id.chars().all(|c| c.is_ascii_hexdigit() || c == '-'));
            }
            _ => panic!("a context without a row is to be extracted"),
        }
    }
}

#[test]
fn each_extraction_gets_an_identifier_of_its_own() {
    let first = step_for_count(names_of("dev"), Some(0));
    let second = step_for_count(names_of("dev"), Some(0));
    match (first, second) {
        (MigrationStep::Extract { id: a, .. }, MigrationStep::Extract { id: b, .. }) => {
            assert_ne!(a, b)
        }
        _ => panic!("both are to be extracted"),
    }
}
