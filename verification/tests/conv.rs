use lspranto::lsp::conv::{uri_from_path, uri_to_path, uri_to_path_string, uri_with_text, ConvError};
use lspranto::paths::paths_equal;
use std::path::PathBuf;

fn uri(path: &str) -> Result<String, ConvError> {
    uri_from_path(&PathBuf::from(path))
}

#[test]
fn a_path_becomes_a_file_uri() {
    assert_eq!(uri("/tmp/a b#c?d%é").unwrap(), "file:///tmp/a%20b%23c%3Fd%25%C3%A9");
    assert_eq!(uri("/").unwrap(), "file:///");
}

#[test]
fn a_path_comes_back_from_its_uri() {
    for path in [
        "/", "/tmp", "/c:", "/C:/a", "/a/b:", "/é ü", "/a%2e", "/a\\b", "/tmp/x y#z?", "/a//b/", "/a/./b", "/~<>`{}",
    ] {
        let back = uri_to_path(&uri(path).unwrap()).unwrap();
        assert!(paths_equal(&back, &PathBuf::from(path)), "{path} {back:?}");
    }
}

#[test]
fn only_absolute_paths_have_a_uri() {
    for path in ["", "a", "./a", "../a"] {
        match uri(path) {
            Err(ConvError::InvalidFilePath { path: named }) => assert_eq!(named, PathBuf::from(path)),
            other => panic!("{other:?}"),
        }
    }
    assert_eq!(uri("a").unwrap_err().message(), "invalid file path a");
}

#[test]
fn some_urls_of_paths_are_no_uris() {
    match uri("/a|b") {
        Err(ConvError::InvalidUri { uri, .. }) => assert_eq!(uri, "file:///a|b"),
        other => panic!("{other:?}"),
    }
}

#[test]
fn uris_that_are_no_files_are_refused() {
    assert!(matches!(uri_to_path("http://x/y"), Err(ConvError::NotFileUri { .. })));
    assert!(matches!(uri_to_path("nonsense"), Err(ConvError::UnreadableUri { .. })));
    assert_eq!(uri_to_path("http://x/y").unwrap_err().message(), "not a file uri: http://x/y");
    assert!(uri_to_path("nonsense").unwrap_err().message().starts_with("invalid uri: "));
}

#[test]
fn paths_need_not_be_unicode() {
    let path = uri_to_path("file:///a/%ff%C3%A9").unwrap();
    assert_eq!(path.as_os_str().as_encoded_bytes(), b"/a/\xff\xc3\xa9");
    assert_eq!(uri_from_path(&path).unwrap(), "file:///a/%FF%C3%A9");
    assert_eq!(uri_to_path_string("file:///a/%ff%C3%A9"), "/a/\u{fffd}é");
}

#[test]
fn uris_are_shown_as_paths_where_they_can_be() {
    assert_eq!(uri_to_path_string("file:///a%20b"), "/a b");
    assert_eq!(uri_to_path_string("http://x/y"), "http://x/y");
    assert_eq!(uri_to_path_string("nonsense"), "nonsense");
}

#[test]
fn texts_that_are_no_uri_are_refused() {
    assert_eq!(uri_with_text("file:///a").unwrap(), "file:///a");
    match uri_with_text("file:///a|b") {
        Err(ConvError::InvalidUri { uri, .. }) => assert_eq!(uri, "file:///a|b"),
        other => panic!("{other:?}"),
    }
    assert!(uri_with_text("a b").unwrap_err().message().starts_with("invalid uri `a b`: "));
}
