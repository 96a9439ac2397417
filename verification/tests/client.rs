use rustylens::client::{
    candidate_paths, context_location, credential_path, find_kubeconfig_path_for_context,
    list_contexts, session_context, session_failure, CredentialRead,
};
use rustylens::cluster_manager::Cluster;
use rustylens::import::{Bundle, ContextEntry, ScannedFile};

fn file(path: &str, contexts: Option<&[&str]>) -> ScannedFile {
    ScannedFile {
        path: path.to_string(),
        bundle: contexts.map(|names| Bundle {
            contexts: names
                .iter()
                .map(|n| ContextEntry { name: n.to_string(), binding: None })
                .collect(),
            clusters: vec![],
            users: vec![],
            current_context: None,
        }),
    }
}

#[test]
fn candidates_come_in_the_order_of_the_search() {
    let paths = candidate_paths(
        Some("/env/config".to_string()),
        Some("/home/u/.kube/config".to_string()),
        vec!["/m/a.yaml".to_string(), "/m/b.yaml".to_string()],
    );
    assert_eq!(paths, vec!["/env/config", "/home/u/.kube/config", "/m/a.yaml", "/m/b.yaml"]);
    assert_eq!(candidate_paths(None, None, vec![]), Vec::<String>::new());
    assert_eq!(
        candidate_paths(None, Some("/h".to_string()), vec!["/m".to_string()]),
        vec!["/h", "/m"]
    );
}

#[test]
fn the_first_file_that_holds_the_context_wins() {
    let candidates = vec![
        file("/missing", None),
        file("/one", Some(&["a", "b"])),
        file("/two", Some(&["b", "c"])),
    ];
    assert_eq!(find_kubeconfig_path_for_context(&candidates, "b"), Some("/one".to_string()));
    assert_eq!(find_kubeconfig_path_for_context(&candidates, "c"), Some("/two".to_string()));
    assert_eq!(find_kubeconfig_path_for_context(&candidates, "d"), None);
    assert_eq!(context_location(&candidates, "a").unwrap(), "/one");
    assert_eq!(
        context_location(&candidates, "d").unwrap_err(),
        "Context 'd' not found in any kubeconfig file"
    );
}

#[test]
fn contexts_are_listed_once_and_in_order() {
    let candidates = vec![
        file("/one", Some(&["prod", "dev"])),
        file("/junk", None),
        file("/two", Some(&["dev", "Alpha", "zeta", "prod"])),
    ];
    assert_eq!(list_contexts(&candidates), vec!["Alpha", "dev", "prod", "zeta"]);
    assert!(list_contexts(&vec![]).is_empty());
    assert!(list_contexts(&vec![file("/junk", None)]).is_empty());
}

#[test]
fn a_registered_cluster_has_its_own_credential_file() {
    let cluster = Cluster {
        id: "id-1".to_string(),
        name: "n".to_string(),
        context_name: "c".to_string(),
        config_path: "/m/id-1.yaml".to_string(),
        icon: None,
        description: None,
        tags: "[]".to_string(),
        created_at: 1,
        last_accessed: 1,
    };
    assert_eq!(credential_path("id-1", Some(cluster)).unwrap(), "/m/id-1.yaml");
    assert_eq!(credential_path("id-2", None).unwrap_err(), "Cluster 'id-2' not found");
}

#[test]
fn sessions_use_the_current_context_of_the_file() {
    let with_current = Bundle {
        contexts: vec![],
        clusters: vec![],
        users: vec![],
        current_context: Some("only".to_string()),
    };
    assert_eq!(session_context(CredentialRead::Read(with_current), "\"/p\"").unwrap(), "only");
    let without = Bundle { contexts: vec![], clusters: vec![], users: vec![], current_context: None };
    assert_eq!(
        session_context(CredentialRead::Read(without), "\"/p\"").unwrap_err(),
        "No current context in kubeconfig"
    );
    assert_eq!(
        session_context(CredentialRead::Missing, "\"/p\"").unwrap_err(),
        "Config file not found: \"/p\""
    );
    assert_eq!(
        session_context(CredentialRead::Unreadable("bad yaml".to_string()), "\"/p\"").unwrap_err(),
        "Failed to read kubeconfig \"/p\": bad yaml"
    );
    assert_eq!(session_failure("Failed to load config: ", "x"), "Failed to load config: x");
}
