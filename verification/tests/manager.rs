use lspranto::config::{Config, ServerConfig};
use lspranto::lsp::manager::{longest_workspace, Manager, Route};
use std::collections::HashMap;
use std::path::PathBuf;

fn server(language_id: &str, extension: &str) -> ServerConfig {
    ServerConfig {
        language_id: language_id.to_string(),
        command: language_id.to_string(),
        args: vec![],
        env: HashMap::new(),
        file_extensions: vec![extension.to_string()],
        initialization_options: None,
        timeout_secs: None,
    }
}

fn manager() -> Manager<&'static str> {
    Manager::new(Config { servers: vec![server("rust", "rs"), server("python", "py")] })
}

fn path(text: &str) -> PathBuf {
    PathBuf::from(text)
}

fn paths(list: &[&str]) -> Vec<PathBuf> {
    list.iter().map(PathBuf::from).collect()
}

#[test]
fn the_longest_workspace_is_taken() {
    let list = paths(&["/w", "/w/inner", "/w/inne", "/x"]);
    let longest = |file| longest_workspace(&list, &path(file)).map(|w| w.to_str().unwrap());
    assert_eq!(longest("/w/inner/a.rs"), Some("/w/inner"));
    assert_eq!(longest("/w/innermost/a.rs"), Some("/w"));
    assert_eq!(longest("/w"), Some("/w"));
    assert_eq!(longest("/x/a.rs"), Some("/x"));
    assert_eq!(longest("/y/a.rs"), None);
    assert_eq!(longest("w/a.rs"), None);
    // Of several with the same length the last is taken.
    let same = paths(&["/a//b", "/a/b/", "/a"]);
    assert_eq!(longest_workspace(&same, &path("/a/b/c")).map(|w| w.to_str().unwrap()), Some("/a/b/"));
}

#[test]
fn workspaces_are_listed_once() {
    let mut m = manager();
    assert!(m.list_workspaces().is_empty());
    m.activate_workspace(&path("/w"));
    m.activate_workspace(&path("/x"));
    m.activate_workspace(&path("/w"));
    assert_eq!(m.list_workspaces(), &paths(&["/w", "/x"]));
}

#[test]
fn files_are_routed() {
    let mut m = manager();
    let no_workspace = m.client_for(&path("/w/a.rs"));
    assert!(matches!(no_workspace, Route::NoWorkspace));
    assert_eq!(
        no_workspace.error().unwrap(),
        "no activated workspace contains this file; call `lsp_activate_workspace` first",
    );
    m.activate_workspace(&path("/w"));
    let no_server = m.client_for(&path("/w/a.txt"));
    assert!(matches!(no_server, Route::NoServer));
    assert_eq!(no_server.error().unwrap(), "no language server configured for this file extension");
    match m.client_for(&path("/w/a.rs")) {
        Route::Spawn { root, server } => {
            assert_eq!((root.to_str().unwrap(), server.language_id.as_str()), ("/w", "rust"));
        }
        _ => panic!("no server to make"),
    }
    assert!(m.client_for(&path("/w/a.rs")).error().is_none());
}

#[test]
fn a_server_is_made_once_per_pair() {
    let mut m = manager();
    m.activate_workspace(&path("/w"));
    m.activate_workspace(&path("/x"));
    m.insert_client(&path("/w"), "rust", "first");
    assert!(matches!(m.client_for(&path("/w/a.rs")), Route::Ready { client: &"first" }));
    assert!(matches!(m.client_for(&path("/w/deep/b.RS")), Route::Ready { client: &"first" }));
    assert!(matches!(m.client_for(&path("/w/a.py")), Route::Spawn { .. }));
    assert!(matches!(m.client_for(&path("/x/a.rs")), Route::Spawn { .. }));
    m.insert_client(&path("/w/"), "rust", "second");
    assert!(matches!(m.client_for(&path("/w/a.rs")), Route::Ready { client: &"second" }));
    assert_eq!(m.server_logs(&path("/w")).len(), 1);
}

#[test]
fn deactivation_stops_the_servers_of_a_workspace() {
    let mut m = manager();
    m.activate_workspace(&path("/w"));
    m.activate_workspace(&path("/x"));
    m.insert_client(&path("/w"), "rust", "a");
    m.insert_client(&path("/x"), "rust", "b");
    m.insert_client(&path("/w"), "python", "c");
    assert_eq!(m.deactivate_workspace(None), (false, vec![]));
    assert_eq!(m.list_workspaces().len(), 2);
    assert_eq!(m.deactivate_workspace(Some(&path("/w"))), (true, vec!["a", "c"]));
    assert_eq!(m.list_workspaces(), &paths(&["/x"]));
    assert!(m.server_logs(&path("/w")).is_empty());
    assert!(matches!(m.client_for(&path("/w/a.rs")), Route::NoWorkspace));
    assert!(matches!(m.client_for(&path("/x/a.rs")), Route::Ready { client: &"b" }));
    // It was not active any more.
    assert_eq!(m.deactivate_workspace(Some(&path("/w"))), (false, vec![]));
    // One without servers is deactivated too.
    m.activate_workspace(&path("/y"));
    assert_eq!(m.deactivate_workspace(Some(&path("/y"))), (true, vec![]));
    assert_eq!(m.list_workspaces(), &paths(&["/x"]));
}

#[test]
fn the_servers_under_a_workspace_are_found() {
    let mut m = manager();
    m.insert_client(&path("/w"), "rust", "a");
    m.insert_client(&path("/w/inner"), "rust", "b");
    m.insert_client(&path("/w"), "python", "c");
    let found: Vec<(&str, &str)> =
        m.server_logs(&path("/w")).into_iter().map(|(l, c)| (l.as_str(), *c)).collect();
    assert_eq!(found, vec![("rust", "a"), ("python", "c")]);
}

#[test]
fn the_order_of_roots_does_not_matter() {
    let file = "/w/inner/a.rs";
    let lists = [
        paths(&["/w", "/w/inner", "/"]),
        paths(&["/w/inner", "/", "/w"]),
        paths(&["/x", "/", "/w/inner", "/w", "/w/inner/b.rs"]),
    ];
    for list in &lists {
        assert_eq!(longest_workspace(list, &path(file)).map(|w| w.to_str().unwrap()), Some("/w/inner"));
    }
}

#[test]
fn different_pairs_have_different_servers() {
    let mut m = manager();
    m.activate_workspace(&path("/w"));
    m.activate_workspace(&path("/x"));
    m.insert_client(&path("/w"), "rust", "a");
    m.insert_client(&path("/x"), "rust", "b");
    m.insert_client(&path("/w"), "python", "c");
    assert!(matches!(m.client_for(&path("/w/a.rs")), Route::Ready { client: &"a" }));
    assert!(matches!(m.client_for(&path("/x/a.rs")), Route::Ready { client: &"b" }));
    assert!(matches!(m.client_for(&path("/w/a.py")), Route::Ready { client: &"c" }));
}
