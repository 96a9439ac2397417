use kube::config::Kubeconfig;
use rustylens::import::{
    credential_file_name, discover_contexts, discover_contexts_in_file,
    discover_contexts_in_folder, extract_context, import_candidate, import_candidates,
    index_bundle, render_credentials, select_context, Bundle, ContextBinding, ContextEntry,
    DiscoveredContext, ScannedFile,
};

fn two_contexts() -> Kubeconfig {
    Kubeconfig::from_yaml(
        "apiVersion: v1
kind: Config
current-context: dev
clusters:
- name: dev-cluster
  cluster:
    server: https://dev.example:6443
- name: prod-cluster
  cluster:
    server: https://prod.example:6443
users:
- name: dev-user
  user:
    token: dev-secret
- name: prod-user
  user:
    token: prod-secret
contexts:
- name: dev
  context:
    cluster: dev-cluster
    user: dev-user
    namespace: team
- name: prod
  context:
    cluster: prod-cluster
    user: prod-user
",
    )
    .unwrap()
}

fn entry(name: &str, cluster: &str, user: Option<&str>) -> ContextEntry {
    ContextEntry {
        name: name.to_string(),
        binding: Some(ContextBinding {
            cluster: cluster.to_string(),
            user: user.map(|u| u.to_string()),
            namespace: None,
        }),
    }
}

fn bundle(contexts: Vec<ContextEntry>, clusters: &[&str], users: &[&str]) -> Bundle {
    Bundle {
        contexts,
        clusters: clusters.iter().map(|s| s.to_string()).collect(),
        users: users.iter().map(|s| s.to_string()).collect(),
        current_context: None,
    }
}

#[test]
fn index_holds_the_names_of_a_bundle() {
    let index = index_bundle(&two_contexts());
    assert_eq!(index.contexts.len(), 2);
    assert_eq!(index.contexts[0].name, "dev");
    let binding = index.contexts[0].binding.as_ref().unwrap();
    assert_eq!(binding.cluster, "dev-cluster");
    assert_eq!(binding.user, Some("dev-user".to_string()));
    assert_eq!(binding.namespace, Some("team".to_string()));
    assert_eq!(index.clusters, vec!["dev-cluster".to_string(), "prod-cluster".to_string()]);
    assert_eq!(index.users, vec!["dev-user".to_string(), "prod-user".to_string()]);
    assert_eq!(index.current_context, Some("dev".to_string()));
    assert_eq!(index_bundle(&Kubeconfig::default()).current_context, None);
}

#[test]
fn discovery_lists_bound_contexts() {
    let found = discover_contexts_in_file(&two_contexts(), "/home/u/.kube/config");
    assert_eq!(found.len(), 2);
    assert_eq!(found[0].context_name, "dev");
    assert_eq!(found[0].cluster_name, "dev-cluster");
    assert_eq!(found[0].user_name, "dev-user");
    assert_eq!(found[0].namespace, Some("team".to_string()));
    assert_eq!(found[0].source_file, "/home/u/.kube/config");
    assert_eq!(found[1].context_name, "prod");
    assert_eq!(found[1].namespace, None);
}

#[test]
fn discovery_passes_over_unbound_contexts_and_fills_missing_users() {
    let b = bundle(
        vec![
            ContextEntry { name: "bare".to_string(), binding: None },
            entry("anonymous", "c", None),
        ],
        &["c"],
        &[],
    );
    let found = discover_contexts(&b, "f");
    assert_eq!(found.len(), 1);
    assert_eq!(found[0].context_name, "anonymous");
    assert_eq!(found[0].user_name, "");
}

#[test]
fn folder_discovery_ignores_files_that_are_no_bundles() {
    let files = vec![
        ScannedFile { path: "/d/notes.txt".to_string(), bundle: None },
        ScannedFile { path: "/d/config".to_string(), bundle: Some(index_bundle(&two_contexts())) },
    ];
    let found = discover_contexts_in_folder(&files);
    assert_eq!(found.len(), 2);
    assert_eq!(found[0].context_name, "dev");
    assert_eq!(found[1].context_name, "prod");
    assert!(found.iter().all(|c| c.source_file == "/d/config"));
    assert!(discover_contexts_in_folder(&vec![]).is_empty());
}

#[test]
fn folder_discovery_keeps_the_order_of_the_walk() {
    let first = bundle(vec![entry("a", "c", Some("u"))], &["c"], &["u"]);
    let second = bundle(vec![entry("b", "c", Some("u")), entry("a", "c", Some("u"))], &["c"], &["u"]);
    let files = vec![
        ScannedFile { path: "1".to_string(), bundle: Some(first) },
        ScannedFile { path: "2".to_string(), bundle: Some(second) },
    ];
    let names: Vec<(String, String)> = discover_contexts_in_folder(&files)
        .into_iter()
        .map(|c| (c.context_name, c.source_file))
        .collect();
    assert_eq!(
        names,
        vec![
            ("a".to_string(), "1".to_string()),
            ("b".to_string(), "2".to_string()),
            ("a".to_string(), "2".to_string()),
        ]
    );
}

#[test]
fn extraction_isolates_one_context() {
    let isolated = extract_context(&two_contexts(), "prod").unwrap();
    assert_eq!(isolated.contexts.len(), 1);
    assert_eq!(isolated.contexts[0].name, "prod");
    assert_eq!(isolated.clusters.len(), 1);
    assert_eq!(isolated.clusters[0].name, "prod-cluster");
    assert_eq!(isolated.auth_infos.len(), 1);
    assert_eq!(isolated.auth_infos[0].name, "prod-user");
    assert_eq!(isolated.current_context, Some("prod".to_string()));
    assert_eq!(isolated.api_version, Some("v1".to_string()));
    assert_eq!(isolated.kind, Some("Config".to_string()));
}

#[test]
fn rendered_credentials_hold_nothing_of_other_contexts() {
    let isolated = extract_context(&two_contexts(), "dev").unwrap();
    let text = render_credentials(&isolated).unwrap();
    assert!(text.contains("dev-cluster"));
    assert!(text.contains("dev-secret"));
    assert!(!text.contains("prod"));
    let read_back = Kubeconfig::from_yaml(&text).unwrap();
    assert_eq!(read_back.contexts.len(), 1);
    assert_eq!(read_back.current_context, Some("dev".to_string()));
}

#[test]
fn extraction_fails_where_an_entry_is_missing() {
    assert_eq!(
        extract_context(&two_contexts(), "staging").unwrap_err(),
        "Context 'staging' not found"
    );
    let unbound = bundle(vec![ContextEntry { name: "x".to_string(), binding: None }], &[], &[]);
    assert_eq!(select_context(&unbound, "x").unwrap_err(), "Context has no context field");
    let no_cluster = bundle(vec![entry("x", "gone", Some("u"))], &["other"], &["u"]);
    assert_eq!(select_context(&no_cluster, "x").unwrap_err(), "Cluster 'gone' not found");
    let no_user = bundle(vec![entry("x", "c", None)], &["c"], &["u"]);
    assert_eq!(select_context(&no_user, "x").unwrap_err(), "Context has no user");
    let user_gone = bundle(vec![entry("x", "c", Some("ghost"))], &["c"], &["u"]);
    assert_eq!(select_context(&user_gone, "x").unwrap_err(), "User 'ghost' not found");
}

#[test]
fn selection_takes_the_first_entry_of_each_name() {
    let b = bundle(
        vec![entry("other", "c2", Some("u1")), entry("x", "c2", Some("u2")), entry("x", "c1", Some("u1"))],
        &["c1", "c2", "c2"],
        &["u1", "u2", "u2"],
    );
    let selection = select_context(&b, "x").unwrap();
    assert_eq!(selection.context, 1);
    assert_eq!(selection.cluster, 1);
    assert_eq!(selection.user, 1);
}

#[test]
fn credential_files_are_named_by_cluster_id() {
    assert_eq!(credential_file_name("abc-123"), "abc-123.yaml");
    assert_eq!(credential_file_name(""), ".yaml");
}

#[test]
fn candidates_suggest_name_and_description() {
    let context = DiscoveredContext {
        context_name: "dev".to_string(),
        cluster_name: "dev-cluster".to_string(),
        user_name: "dev-user".to_string(),
        namespace: None,
        source_file: "/d/config".to_string(),
    };
    let from_file = import_candidate(context.clone(), false);
    assert_eq!(from_file.suggested_name, "dev");
    assert_eq!(from_file.icon, None);
    assert_eq!(from_file.description, Some("Cluster: dev-cluster, User: dev-user".to_string()));
    assert_eq!(from_file.context.source_file, "/d/config");
    let from_folder = import_candidates(vec![context.clone(), context], true);
    assert_eq!(from_folder.len(), 2);
    assert_eq!(
        from_folder[1].description,
        Some("Cluster: dev-cluster, User: dev-user, File: /d/config".to_string())
    );
}
