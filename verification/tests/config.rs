use lspranto::config::{Config, ServerConfig};
use std::collections::HashMap;
use std::path::PathBuf;
use std::time::Duration;

fn server(language_id: &str, extensions: &[&str]) -> ServerConfig {
    ServerConfig {
        language_id: language_id.to_string(),
        command: format!("{language_id}-ls"),
        args: vec![],
        env: HashMap::new(),
        file_extensions: extensions.iter().map(|e| e.to_string()).collect(),
        initialization_options: None,
        timeout_secs: None,
    }
}

fn registry() -> Config {
    Config {
        servers: vec![
            server("rust", &["rs"]),
            server("c", &["c", "h"]),
            server("cpp", &["cpp", "h"]),
            server("none", &[""]),
        ],
    }
}

fn found(server: Option<&ServerConfig>) -> Option<&str> {
    server.map(|s| s.language_id.as_str())
}

#[test]
fn requests_take_a_minute_at_most_by_default() {
    let mut s = server("rust", &["rs"]);
    assert_eq!(s.timeout(), Duration::from_secs(60));
    s.timeout_secs = Some(7);
    assert_eq!(s.timeout(), Duration::from_secs(7));
    s.timeout_secs = Some(0);
    assert_eq!(s.timeout_seconds(), 0);
}

#[test]
fn the_first_server_that_claims_an_extension_is_taken() {
    let config = registry();
    assert_eq!(found(config.language_for_ext("rs")), Some("rust"));
    assert_eq!(found(config.language_for_ext("RS")), Some("rust"));
    assert_eq!(found(config.language_for_ext("h")), Some("c"));
    assert_eq!(found(config.language_for_ext("cpp")), Some("cpp"));
    assert_eq!(found(config.language_for_ext("py")), None);
}

#[test]
fn a_file_is_routed_by_its_extension() {
    let config = registry();
    assert_eq!(found(config.language_for_path(&PathBuf::from("/w/src/main.rs"))), Some("rust"));
    assert_eq!(found(config.language_for_path(&PathBuf::from("/w/a.b.H"))), Some("c"));
    assert_eq!(found(config.language_for_path(&PathBuf::from("/w/rs"))), None);
    assert_eq!(found(config.language_for_path(&PathBuf::from("/w/.rs"))), None);
    assert_eq!(found(config.language_for_path(&PathBuf::from("/w/x.rs/.."))), None);
    assert_eq!(found(config.language_for_path(&PathBuf::from("/w/x."))), Some("none"));
}

#[test]
fn a_language_is_found_by_its_id() {
    let config = registry();
    assert_eq!(found(config.language("cpp")), Some("cpp"));
    assert_eq!(found(config.language("CPP")), None);
}

#[test]
fn the_built_in_registry_is_the_fallback() {
    let builtin = || Config { servers: vec![server("builtin", &["b"])] };
    let loaded = Config { servers: vec![server("mine", &["m"])] };
    let none: Option<Result<Config, String>> = None;
    assert_eq!(found(Config::load_or_builtin(none, builtin()).language_for_ext("b")), Some("builtin"));
    let broken: Option<Result<Config, String>> = Some(Err("broken".to_string()));
    assert_eq!(found(Config::load_or_builtin(broken, builtin()).language_for_ext("b")), Some("builtin"));
    let fine: Option<Result<Config, String>> = Some(Ok(loaded));
    assert_eq!(found(Config::load_or_builtin(fine, builtin()).language_for_ext("m")), Some("mine"));
    assert!(Config::default().servers.is_empty());
}
