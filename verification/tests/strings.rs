use lspranto::config::equal_but_ascii_case;
use lspranto::encoding::{utf16_units, utf8_bytes};
use lspranto::lsp::conv::{uri_from_path, uri_to_path};
use lspranto::lsp::edit::{apply_to_disk, DiskAction, DiskReply};
use lspranto::lsp::types::{
    ChangeOperation, CreateFile, FileOperation, OrderedChanges, WorkspaceEdit,
};
use lspranto::paths::{components_of, extension_of, file_name_of, path_contains, paths_equal};
use lspranto::strings::{
    chars_of, is_white_space, parse_usize, push_decimal, push_int, same_text, string_of, trimmed,
};
use std::path::{Component, Path, PathBuf};

const PATHS: [&str; 24] = [
    "", "/", "//", ".", "..", "./", "a", "a/", "/a", "/a/", "/a//b", "/a/./b", "./a", "a/.", "/a/..",
    "../a", "/./a", "/a/b/c.rs", "/x.y/z", "a.b.c", ".hidden", "/d/.hidden", "foo.", "/a/..b",
];

fn paths() -> Vec<PathBuf> {
    let mut list: Vec<PathBuf> = PATHS.iter().map(PathBuf::from).collect();
    list.push(uri_to_path("file:///w/%FF/a%FE.r%C0").unwrap());
    list.push(uri_to_path("file:///w/%FF/.").unwrap());
    list
}

#[test]
fn paths_have_the_components_that_std_gives() {
    for path in paths() {
        let expected: Vec<Vec<u8>> = path
            .components()
            .map(|c| match c {
                Component::Prefix(_) => unreachable!(),
                other => other.as_os_str().as_encoded_bytes().to_vec(),
            })
            .collect();
        assert_eq!(components_of(&path), expected, "{path:?}");
    }
}

#[test]
fn paths_compare_as_in_std() {
    for a in paths() {
        for b in paths() {
            assert_eq!(paths_equal(&a, &b), a == b, "{a:?} {b:?}");
            assert_eq!(path_contains(&a, &b), b.starts_with(&a), "{a:?} {b:?}");
        }
    }
}

#[test]
fn paths_have_the_parts_that_std_gives() {
    for path in paths() {
        assert_eq!(
            file_name_of(&path),
            path.file_name().map(|n| n.to_string_lossy().to_string()),
            "{path:?}",
        );
        assert_eq!(
            extension_of(&path).as_deref(),
            path.extension().and_then(|e| e.to_str()),
            "{path:?}",
        );
    }
}

#[test]
fn directories_above_a_new_file_are_made() {
    for (path, above) in [("/a//b", "/a"), ("/a/b/c", "/a/b"), ("/a", "/")] {
        let create = CreateFile { uri: uri_from_path(&PathBuf::from(path)).unwrap(), options: None };
        let (mut run, _) = apply_to_disk(WorkspaceEdit {
            changes: None,
            document_changes: Some(OrderedChanges::Operations(vec![ChangeOperation::Op(
                FileOperation::Create(create),
            )])),
        });
        match run.resume(DiskReply::Found(false)) {
            DiskAction::CreateDirectories { path } => assert_eq!(path, Path::new(above)),
            other => panic!("{other:?}"),
        }
    }
}

#[test]
fn numbers_are_written_in_decimal() {
    for n in [0u64, 9, 10, 42, 100, u64::MAX] {
        let mut out = "n=".to_string();
        push_decimal(&mut out, n);
        assert_eq!(out, format!("n={n}"));
    }
    for i in [0i64, -1, 17, i64::MAX, i64::MIN] {
        let mut out = String::new();
        push_int(&mut out, i);
        assert_eq!(out, i.to_string());
    }
}

#[test]
fn numbers_are_read_as_in_std() {
    let max = usize::MAX.to_string();
    for text in ["", "+", "0", "007", "+12", "-1", "1x", " 1", "18446744073709551616", max.as_str()] {
        let chars = chars_of(text);
        assert_eq!(parse_usize(&chars, 0, chars.len()), text.parse().ok(), "{text}");
    }
}

#[test]
fn white_space_is_that_of_unicode() {
    for code in 0..0x1_1000u32 {
        if let Some(c) = char::from_u32(code) {
            assert_eq!(is_white_space(c), c.is_whitespace(), "{code:x}");
        }
    }
    for text in ["", " ", " a ", "\u{3000}a b\u{85}", "ab"] {
        let chars = chars_of(text);
        let (from, to) = trimmed(&chars, 0, chars.len());
        assert_eq!(string_of(&chars, from, to), text.trim());
    }
}

#[test]
fn characters_have_their_widths() {
    for c in ['a', 'é', '€', '\u{ffff}', '😀', '\u{10ffff}'] {
        assert_eq!(utf16_units(c) as usize, c.len_utf16());
        assert_eq!(utf8_bytes(c), c.len_utf8());
    }
}

#[test]
fn texts_are_compared() {
    assert!(same_text("é", "é"));
    assert!(!same_text("a", "ab"));
    for (a, b) in [("RS", "rs"), ("é", "É"), ("Z", "["), ("@", "`"), ("aZ", "Az"), ("a", "ab")] {
        assert_eq!(equal_but_ascii_case(a, b), a.eq_ignore_ascii_case(b), "{a} {b}");
    }
}
